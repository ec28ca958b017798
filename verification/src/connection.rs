//! The connection multiplexer's decision core: a subscription table of
//! outstanding commands in send order, the transitions the background
//! reader applies to it for every decoded frame, and the serialization
//! of outgoing commands.
//!
//! The I/O around this state machine (the socket, the write queue, the
//! reader task, the per-command result channels) lives outside the
//! library; callers register a waiter *before* writing the command, feed
//! every decoded frame to [`ConnectionState::on_frame`], and perform the
//! returned [`ReaderAction`].

use vstd::prelude::*;
use crate::tag::{Tag, TagGenerator, TAG_SEQUENCE_START};
use crate::lex::{spec_is_digit, spec_is_astring_char, spec_digits_val, lemma_run_end_exact, ByteClass};
use crate::grammar::spec_imap_tag;
use crate::parser::SpecParsed;
use crate::types::{
    ImapResponse, UntaggedResponse, UntaggedResponseView, Greeting, ContinueReq, RespText,
    ImapResult,
};

verus! {

/// One outstanding command: its tag and the untagged items accumulated
/// since it was sent.
#[derive(Debug, Clone)]
pub struct PendingEntry {
    pub tag: Tag,
    pub untagged: Vec<UntaggedResponse>,
}

#[verifier::ext_equal]
pub ghost struct PendingEntryView {
    pub tag: Tag,
    pub untagged: Seq<UntaggedResponseView>,
}

impl DeepView for PendingEntry {
    type V = PendingEntryView;

    open spec fn deep_view(&self) -> PendingEntryView {
        PendingEntryView { tag: self.tag, untagged: self.untagged.deep_view() }
    }
}

/// What the caller must do with one decoded frame: deliver a greeting or
/// continuation to the dedicated single-slot waiter (or log it if none is
/// registered), nothing (the untagged item was buffered), log an untagged
/// item that no command can own, resolve one waiter with its accumulated
/// data, or report a protocol violation without aborting the reader.
#[derive(Debug, Clone)]
pub enum ReaderAction {
    DeliverGreeting(Greeting),
    DeliverContinuation(ContinueReq),
    Buffered,
    Unattributed(UntaggedResponse),
    Resolve { tag: Tag, untagged: Vec<UntaggedResponse>, status: ImapResult, text: RespText },
    Violation(Tag),
}

/// The first index holding tag `t`, or -1 if `t` is not outstanding.
pub open spec fn find_tag(entries: Seq<PendingEntryView>, t: Tag) -> int
    decreases entries.len(),
{
    if entries.len() == 0 {
        -1
    } else if entries[0].tag == t {
        0
    } else {
        let r = find_tag(entries.drop_first(), t);
        if r < 0 {
            -1
        } else {
            r + 1
        }
    }
}

pub proof fn lemma_find_tag(entries: Seq<PendingEntryView>, t: Tag)
    ensures
        find_tag(entries, t) == -1 ==> forall|j: int|
            0 <= j < entries.len() ==> (#[trigger] entries[j]).tag != t,
        find_tag(entries, t) != -1 ==> 0 <= find_tag(entries, t) < entries.len() && entries[
            find_tag(entries, t)
        ].tag == t && forall|j: int|
            0 <= j < find_tag(entries, t) ==> (#[trigger] entries[j]).tag != t,
    decreases entries.len(),
{
    if entries.len() > 0 && entries[0].tag != t {
        lemma_find_tag(entries.drop_first(), t);
        assert forall|j: int| 1 <= j < entries.len() implies entries.drop_first()[j - 1] == (
        #[trigger] entries[j]) by {}
    }
}

/// Appending one untagged item to the oldest outstanding command.
pub open spec fn spec_buffer_untagged(
    entries: Seq<PendingEntryView>,
    u: UntaggedResponseView,
) -> Seq<PendingEntryView>
    recommends
        entries.len() > 0,
{
    entries.update(
        0,
        PendingEntryView { tag: entries[0].tag, untagged: entries[0].untagged.push(u) },
    )
}

/// Law: interleaved untagged data belongs to the earliest unresolved
/// command. With command A outstanding before command B, an untagged
/// frame arriving while both are outstanding is attributed to A's
/// buffer; B's buffer (and every later one) is untouched.
pub proof fn lemma_untagged_attributed_to_oldest(
    entries: Seq<PendingEntryView>,
    u: UntaggedResponseView,
)
    requires
        entries.len() >= 2,
    ensures
        spec_buffer_untagged(entries, u)[0].tag == entries[0].tag,
        spec_buffer_untagged(entries, u)[0].untagged == entries[0].untagged.push(u),
        forall|j: int|
            1 <= j < entries.len() ==> #[trigger] spec_buffer_untagged(entries, u)[j]
                == entries[j],
{
}

/// The shared decision state of one connection: the tag generator and
/// the subscription table of outstanding commands, oldest first. Entries
/// are inserted by `register` (before the command is written) and
/// removed by the reader on the matching tagged completion, or drained
/// by `close`.
pub struct ConnectionState {
    pub generator: TagGenerator,
    pub outstanding: Vec<PendingEntry>,
}

impl ConnectionState {
    /// Well-formedness: every outstanding tag was minted by this
    /// connection's generator (same prefix, sequence below the counter),
    /// so outstanding tags are pairwise distinct.
    pub open spec fn wf(self) -> bool {
        &&& self.generator.wf()
        &&& forall|j: int|
            0 <= j < self.outstanding.deep_view().len() ==> (#[trigger] self.outstanding.deep_view()[j]).tag
                == (Tag {
                prefix: self.generator.prefix,
                sequence: self.outstanding.deep_view()[j].tag.sequence,
            }) && self.outstanding.deep_view()[j].tag.sequence < self.generator.counter
        &&& forall|j: int, k: int|
            0 <= j < k < self.outstanding.deep_view().len() ==> (
            #[trigger] self.outstanding.deep_view()[j]).tag.sequence != (
            #[trigger] self.outstanding.deep_view()[k]).tag.sequence
    }

    /// A fresh connection: no outstanding commands, counter at its seed.
    pub fn new(prefix: char) -> (r: ConnectionState)
        requires
            33 <= (prefix as u32) <= 126,
        ensures
            r.wf(),
            r.generator == (TagGenerator { prefix, counter: TAG_SEQUENCE_START }),
            r.outstanding.deep_view().len() == 0,
    {
        ConnectionState { generator: TagGenerator::new(prefix), outstanding: Vec::new() }
    }

    /// Registers a fresh single-use waiter and returns its tag. The
    /// caller serializes the command under this tag and performs the
    /// write only after this call, so no frame can arrive for a tag that
    /// is not yet in the table.
    pub fn register(&mut self) -> (t: Tag)
        requires
            old(self).wf(),
            old(self).generator.counter < u32::MAX,
        ensures
            final(self).wf(),
            t == (Tag {
                prefix: old(self).generator.prefix,
                sequence: old(self).generator.counter,
            }),
            final(self).generator.prefix == old(self).generator.prefix,
            final(self).generator.counter == old(self).generator.counter + 1,
            final(self).outstanding.deep_view() == old(self).outstanding.deep_view().push(
                PendingEntryView { tag: t, untagged: Seq::empty() },
            ),
    {
        let t = self.generator.next_tag();
        let entry = PendingEntry { tag: t, untagged: Vec::new() };
        let ghost pre = self.outstanding.deep_view();
        self.outstanding.push(entry);
        proof {
            assert(self.outstanding.deep_view() =~~= pre.push(
                PendingEntryView { tag: t, untagged: Seq::<UntaggedResponseView>::empty() },
            ));
        }
        t
    }

    /// Deregisters an abandoned waiter so its table entry does not leak;
    /// returns whether the tag was outstanding.
    pub fn deregister(&mut self, t: Tag) -> (removed: bool)
        requires
            old(self).wf(),
        ensures
            final(self).wf(),
            final(self).generator == old(self).generator,
            removed == (find_tag(old(self).outstanding.deep_view(), t) >= 0),
            removed ==> final(self).outstanding.deep_view() == old(
                self,
            ).outstanding.deep_view().remove(find_tag(old(self).outstanding.deep_view(), t)),
            !removed ==> final(self).outstanding == old(self).outstanding,
    {
        proof {
            lemma_find_tag(old(self).outstanding.deep_view(), t);
        }
        let j = match self.find(t) {
            Some(j) => j,
            None => {
                return false;
            },
        };
        let ghost pre = self.outstanding.deep_view();
        let _ = self.outstanding.remove(j);
        proof {
            assert(self.outstanding.deep_view() =~= pre.remove(j as int));
            self.lemma_wf_after_remove(*old(self), j as int);
        }
        true
    }

    /// Removal keeps well-formedness: the remaining entries are a
    /// sub-sequence of the old ones.
    proof fn lemma_wf_after_remove(self, pre: ConnectionState, j: int)
        requires
            pre.wf(),
            0 <= j < pre.outstanding.deep_view().len(),
            self.generator == pre.generator,
            self.outstanding.deep_view() == pre.outstanding.deep_view().remove(j),
        ensures
            self.wf(),
    {
        let predv = pre.outstanding.deep_view();
        let dv = self.outstanding.deep_view();
        assert forall|x: int| 0 <= x < dv.len() implies (#[trigger] dv[x]).tag == (Tag {
            prefix: self.generator.prefix,
            sequence: dv[x].tag.sequence,
        }) && dv[x].tag.sequence < self.generator.counter by {
            if x < j {
                assert(dv[x] == predv[x]);
            } else {
                assert(dv[x] == predv[x + 1]);
            }
        }
        assert forall|x: int, y: int| 0 <= x < y < dv.len() implies (
        #[trigger] dv[x]).tag.sequence != (#[trigger] dv[y]).tag.sequence by {
            let px = if x < j {
                x
            } else {
                x + 1
            };
            let py = if y < j {
                y
            } else {
                y + 1
            };
            assert(dv[x] == predv[px]);
            assert(dv[y] == predv[py]);
        }
    }

    /// Linear search for the first entry with tag `t`.
    fn find(&self, t: Tag) -> (r: Option<usize>)
        ensures
            (match r {
                Some(j) => j == find_tag(self.outstanding.deep_view(), t) && j
                    < self.outstanding.deep_view().len(),
                None => find_tag(self.outstanding.deep_view(), t) == -1,
            }),
    {
        proof {
            lemma_find_tag(self.outstanding.deep_view(), t);
        }
        let ghost dv = self.outstanding.deep_view();
        let n = self.outstanding.len();
        let mut k: usize = 0;
        while k < n
            invariant
                0 <= k <= n,
                n == dv.len(),
                dv == self.outstanding.deep_view(),
                forall|j: int| 0 <= j < k ==> (#[trigger] dv[j]).tag != t,
                find_tag(dv, t) == -1 ==> forall|j: int|
                    0 <= j < dv.len() ==> (#[trigger] dv[j]).tag != t,
                find_tag(dv, t) != -1 ==> 0 <= find_tag(dv, t) < dv.len() && dv[find_tag(
                    dv,
                    t,
                )].tag == t && forall|j: int|
                    0 <= j < find_tag(dv, t) ==> (#[trigger] dv[j]).tag != t,
            decreases n - k,
        {
            let te = &self.outstanding[k];
            if te.tag.prefix == t.prefix && te.tag.sequence == t.sequence {
                proof {
                    assert(dv[k as int].tag == t);
                    if find_tag(dv, t) < k {
                        assert(find_tag(dv, t) != -1);
                    }
                    if find_tag(dv, t) > k {
                        assert(dv[k as int].tag != t);
                    }
                }
                return Some(k);
            }
            proof {
                assert(dv[k as int].tag != t);
            }
            k = k + 1;
        }
        None
    }

    /// Applies one decoded frame to the table and says what the reader
    /// must do with it. Greetings and continuations pass through; an
    /// untagged unit is appended to the buffer of the oldest outstanding
    /// command (strict FIFO attribution) or handed back when none is
    /// outstanding; a tagged completion removes its entry and resolves
    /// the waiter with the buffered items, or is a protocol violation if
    /// its tag is unknown or already resolved.
    pub fn on_frame(&mut self, resp: ImapResponse) -> (a: ReaderAction)
        requires
            old(self).wf(),
        ensures
            final(self).wf(),
            final(self).generator == old(self).generator,
            (match resp {
                ImapResponse::Greeting(g) => final(self).outstanding == old(self).outstanding
                    && a == ReaderAction::DeliverGreeting(g),
                ImapResponse::Continue(c) => final(self).outstanding == old(self).outstanding
                    && a == ReaderAction::DeliverContinuation(c),
                ImapResponse::Untagged(u) => if old(self).outstanding.deep_view().len() == 0 {
                    final(self).outstanding == old(self).outstanding && a
                        == ReaderAction::Unattributed(u)
                } else {
                    a == ReaderAction::Buffered && final(self).outstanding.deep_view()
                        == spec_buffer_untagged(old(self).outstanding.deep_view(), u.deep_view())
                },
                ImapResponse::Response(t) => {
                    let j = find_tag(old(self).outstanding.deep_view(), t.tag);
                    if j < 0 {
                        final(self).outstanding == old(self).outstanding && a
                            == ReaderAction::Violation(t.tag)
                    } else {
                        &&& final(self).outstanding.deep_view() == old(
                            self,
                        ).outstanding.deep_view().remove(j)
                        &&& a matches ReaderAction::Resolve { tag, untagged, status, text }
                        &&& tag == t.tag
                        &&& untagged.deep_view() == old(self).outstanding.deep_view()[j].untagged
                        &&& status == t.resp.status
                        &&& text == t.resp.text
                    }
                },
            }),
    {
        match resp {
            ImapResponse::Greeting(g) => ReaderAction::DeliverGreeting(g),
            ImapResponse::Continue(c) => ReaderAction::DeliverContinuation(c),
            ImapResponse::Untagged(u) => {
                if self.outstanding.len() == 0 {
                    return ReaderAction::Unattributed(u);
                }
                let ghost pre = self.outstanding.deep_view();
                let mut e = self.outstanding.remove(0);
                let ghost ud = u.deep_view();
                e.untagged.push(u);
                self.outstanding.insert(0, e);
                proof {
                    assert(self.outstanding.deep_view() =~~= spec_buffer_untagged(pre, ud));
                    self.lemma_wf_after_buffer(*old(self), ud);
                }
                ReaderAction::Buffered
            },
            ImapResponse::Response(t) => {
                proof {
                    lemma_find_tag(old(self).outstanding.deep_view(), t.tag);
                }
                let j = match self.find(t.tag) {
                    Some(j) => j,
                    None => {
                        return ReaderAction::Violation(t.tag);
                    },
                };
                let ghost pre = self.outstanding.deep_view();
                let e = self.outstanding.remove(j);
                proof {
                    assert(self.outstanding.deep_view() =~= pre.remove(j as int));
                    self.lemma_wf_after_remove(*old(self), j as int);
                }
                ReaderAction::Resolve {
                    tag: t.tag,
                    untagged: e.untagged,
                    status: t.resp.status,
                    text: t.resp.text,
                }
            },
        }
    }

    /// Buffering an untagged item keeps well-formedness: no tag changes.
    proof fn lemma_wf_after_buffer(self, pre: ConnectionState, u: UntaggedResponseView)
        requires
            pre.wf(),
            pre.outstanding.deep_view().len() > 0,
            self.generator == pre.generator,
            self.outstanding.deep_view() == spec_buffer_untagged(pre.outstanding.deep_view(), u),
        ensures
            self.wf(),
    {
        let predv = pre.outstanding.deep_view();
        let dv = self.outstanding.deep_view();
        assert(dv.len() == predv.len());
        assert forall|x: int| 0 <= x < dv.len() implies (#[trigger] dv[x]).tag == predv[x].tag by {}
    }

    /// Drains the table on shutdown: every remaining entry is handed
    /// back so the caller can resolve each waiter with a
    /// connection-closed error; none is silently dropped.
    pub fn close(&mut self) -> (pending: Vec<PendingEntry>)
        requires
            old(self).wf(),
        ensures
            final(self).wf(),
            final(self).generator == old(self).generator,
            final(self).outstanding.deep_view().len() == 0,
            pending == old(self).outstanding,
    {
        let mut pending: Vec<PendingEntry> = Vec::new();
        core::mem::swap(&mut pending, &mut self.outstanding);
        pending
    }
}

// ------------------------------------------------------------------
// Command serialization.
// ------------------------------------------------------------------

/// The decimal digits of `n`, most significant first.
pub open spec fn spec_dec(n: int) -> Seq<u8>
    decreases n,
{
    if n < 10 {
        seq![(48 + n) as u8]
    } else {
        spec_dec(n / 10).push((48 + n % 10) as u8)
    }
}

/// The wire form of a tag: its prefix byte and the decimal sequence.
pub open spec fn spec_tag_bytes(t: Tag) -> Seq<u8> {
    seq![t.prefix as u8] + spec_dec(t.sequence as int)
}

/// The decimal rendering is at least one byte, all digits.
proof fn lemma_dec_digits(n: int)
    requires
        0 <= n,
    ensures
        spec_dec(n).len() >= 1,
        forall|q: int| 0 <= q < spec_dec(n).len() ==> spec_is_digit(#[trigger] spec_dec(n)[q]),
    decreases n,
{
    if n >= 10 {
        lemma_dec_digits(n / 10);
        assert forall|q: int| 0 <= q < spec_dec(n).len() implies spec_is_digit(
            #[trigger] spec_dec(n)[q],
        ) by {
            if q < spec_dec(n / 10).len() {
                assert(spec_dec(n)[q] == spec_dec(n / 10)[q]);
            }
        }
    }
}

/// Reading back the decimal rendering gives the number.
proof fn lemma_dec_val(s: Seq<u8>, a: int, n: int)
    requires
        0 <= n,
        0 <= a,
        a + spec_dec(n).len() <= s.len(),
        s.subrange(a, a + spec_dec(n).len() as int) == spec_dec(n),
    ensures
        spec_digits_val(s, a, a + spec_dec(n).len() as int) == n,
    decreases n,
{
    let d = spec_dec(n);
    if n < 10 {
        assert(s[a] == d[0]);
        assert(d[0] == ((48 + n) as u8));
        assert(spec_digits_val(s, a, a + 1) == spec_digits_val(s, a, a) * 10 + (s[a] - 48));
        assert(spec_digits_val(s, a, a) == 0);
    } else {
        let d2 = spec_dec(n / 10);
        assert forall|q: int| 0 <= q < d2.len() implies s.subrange(a, a + d2.len() as int)[q]
            == d2[q] by {
            assert(s.subrange(a, a + d.len() as int)[q] == d[q]);
        }
        assert(s.subrange(a, a + d2.len() as int) =~= d2);
        lemma_dec_val(s, a, n / 10);
        assert(d.len() == d2.len() + 1);
        assert(s[a + d.len() as int - 1] == d[d.len() as int - 1]);
        assert(d[d.len() as int - 1] == ((48 + n % 10) as u8));
        assert(spec_digits_val(s, a, a + d.len() as int) == spec_digits_val(
            s,
            a,
            a + d2.len() as int,
        ) * 10 + (s[a + d.len() as int - 1] - 48));
        assert(spec_digits_val(s, a, a + d2.len() as int) == n / 10);
        assert(0 <= n % 10 < 10);
        assert(s[a + d.len() as int - 1] - 48 == n % 10);
        assert(n == (n / 10) * 10 + n % 10);
    }
}

/// Law: a tag serialized onto the wire and echoed verbatim by the server
/// decodes back to the very tag that was registered, so the tagged
/// completion resolves the right waiter. `rest` stands for the rest of
/// the echoed line, which continues with a non-digit (the space before
/// the status word).
pub proof fn lemma_tag_round_trip(t: Tag, rest: Seq<u8>)
    requires
        t.wf(),
        spec_is_astring_char(t.prefix as u8),
        rest.len() > 0,
        !spec_is_digit(rest[0]),
    ensures
        spec_imap_tag(spec_tag_bytes(t) + rest, 0) == (SpecParsed::Match {
            next: spec_tag_bytes(t).len() as int,
            val: t,
        }),
{
    let s = spec_tag_bytes(t) + rest;
    let d = spec_dec(t.sequence as int);
    lemma_dec_digits(t.sequence as int);
    assert(s[0] == (t.prefix as u8));
    assert(((t.prefix as u8) as char) == t.prefix);
    assert forall|q: int| 1 <= q < 1 + d.len() implies spec_is_digit(#[trigger] s[q]) by {
        assert(s[q] == d[q - 1]);
    }
    assert(s[1 + d.len() as int] == rest[0]);
    lemma_run_end_exact(s, 1, 1 + d.len() as int, ByteClass::Digit);
    assert forall|q: int| 0 <= q < d.len() implies s.subrange(1, 1 + d.len() as int)[q] == d[q]
        by {
        assert(s.subrange(1, 1 + d.len() as int)[q] == s[1 + q]);
    }
    assert(s.subrange(1, 1 + d.len() as int) =~= d);
    lemma_dec_val(s, 1, t.sequence as int);
}

fn push_dec(n: u32, out: &mut Vec<u8>)
    ensures
        final(out)@ == old(out)@ + spec_dec(n as int),
    decreases n,
{
    let ghost pre = out@;
    if n < 10 {
        out.push(48 + (n as u8));
        proof {
            assert(out@ =~= pre + spec_dec(n as int));
        }
    } else {
        push_dec(n / 10, out);
        out.push(48 + ((n % 10) as u8));
        proof {
            assert(out@ =~= pre + spec_dec(n as int));
        }
    }
}

/// Serializes one outgoing command: the tag, a space, the command bytes
/// handed in by the caller, and CRLF. Registration of the tag's waiter
/// must precede the write of these bytes.
pub fn serialize_command(t: Tag, cmd: &[u8]) -> (r: Vec<u8>)
    requires
        t.wf(),
    ensures
        r@ == spec_tag_bytes(t) + seq![' ' as u8] + cmd@ + seq![('\r' as u8), ('\n' as u8)],
{
    let mut out: Vec<u8> = Vec::new();
    out.push(t.prefix as u8);
    proof {
        assert(out@ =~= seq![t.prefix as u8]);
    }
    push_dec(t.sequence, &mut out);
    out.push(32);
    out.extend_from_slice(cmd);
    out.push(13);
    out.push(10);
    proof {
        assert(out@ =~= spec_tag_bytes(t) + seq![' ' as u8] + cmd@ + seq![
            ('\r' as u8),
            ('\n' as u8),
        ]);
    }
    out
}

} // verus!
