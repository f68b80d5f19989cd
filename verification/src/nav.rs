//! The navigation controller: a fetch cycle as a state machine.
//!
//! The session primes a request target; the caller performs the network
//! exchange and hands the outcome back to `apply_response`, which either
//! asks for one follow-up fetch (a single redirect hop — a redirect
//! answered by another redirect is treated as a protocol failure, the
//! hard cap that keeps redirect chains finite) or settles the
//! navigation: rows rebuilt, URL made current, history pushed only when
//! it differs from the top, forward slot set to the page left behind.

use vstd::prelude::*;

use crate::resolve::{check_capsule_url, is_capsule_url, resolve, resolved};
use crate::rows::{adapt, adapted, rows_model, span_model, DisplayRow, RowModel, StyledSpan,
    TextStyle};
use crate::session::{back_started, forward_started, hist_view, same_ui, App};
use crate::stateful_list::StatefulList;
use crate::text::str_eq;

verus! {

/// What the transport hands back for one fetch.
pub enum ResponseOutcome {
    Success { body: String, meta: String },
    Redirect { permanent: bool, target: String },
    InputRequired { sensitive: bool, prompt: String },
    Failure { meta: String },
    TransportError { message: String },
}

/// What the fetch cycle must do after one outcome.
#[derive(PartialEq, Eq, Structural, Clone, Copy, Debug)]
pub enum NavStep {
    Refetch,
    Done,
}

/// A history stack after an arrival at `u`: pushed only when `u` is not
/// already on top.
pub open spec fn pushed_history(h: Seq<Seq<char>>, u: Seq<char>) -> Seq<Seq<char>> {
    if h.len() > 0 && h.last() == u {
        h
    } else {
        h.push(u)
    }
}

/// The one row shown for a protocol failure.
pub open spec fn failure_row(meta: Seq<char>) -> RowModel {
    RowModel { spans: seq![span_model(meta, TextStyle::Plain)], link: None, pre: false }
}

/// A navigation settled on its target: the target is current, the page
/// it replaced fills the forward slot, and the stack grew by the target
/// unless it was already on top.
pub open spec fn settled(pre: App, post: App) -> bool {
    &&& post.url@ == pre.request_url@
    &&& (post.previous_capsule matches Some(p) && p@ == pre.url@)
    &&& hist_view(post.capsule_history@) == pushed_history(
        hist_view(pre.capsule_history@),
        pre.request_url@,
    )
}

/// A successful settle: fresh rows from the body at the session's wrap
/// width, selection reset, error cleared.
pub open spec fn success_settled(pre: App, post: App, body: Seq<char>) -> bool {
    &&& settled(pre, post)
    &&& rows_model(post.items.items@) == adapted(body, pre.wrap_at as nat)
    &&& post.items.cursor is None
    &&& post.items.selected == 0
    &&& post.error is None
    &&& same_ui(pre, post)
}

/// A failed settle: a single error row, the failure text kept as the
/// error.
pub open spec fn failure_settled(pre: App, post: App, meta: Seq<char>) -> bool {
    &&& settled(pre, post)
    &&& rows_model(post.items.items@) == seq![failure_row(meta)]
    &&& post.items.cursor is None
    &&& post.items.selected == 0
    &&& (post.error matches Some(m) && m@ == meta)
    &&& same_ui(pre, post)
}

/// A server input prompt is pending: the fetched URL is current, the
/// rows that were on display stay, history is not pushed yet.
pub open spec fn input_pending(pre: App, post: App, prompt: Seq<char>) -> bool {
    &&& post.url@ == pre.request_url@
    &&& (post.previous_capsule matches Some(p) && p@ == pre.url@)
    &&& post.capsule_history == pre.capsule_history
    &&& post.items == pre.items
    &&& post.accept_response_input
    &&& post.response_input_text@ == prompt
    &&& post.error == pre.error
    &&& post.input == pre.input
    &&& post.input_mode == pre.input_mode
    &&& post.pending_chord == pre.pending_chord
    &&& post.command_history == pre.command_history
    &&& post.command_history_cursor == pre.command_history_cursor
    &&& post.response_input == pre.response_input
    &&& post.wrap_at == pre.wrap_at
}

/// A transport error: everything stays, only the error slot is filled.
pub open spec fn transport_failed(pre: App, post: App, message: Seq<char>) -> bool {
    &&& (post.error matches Some(m) && m@ == message)
    &&& post.url == pre.url
    &&& post.items == pre.items
    &&& post.capsule_history == pre.capsule_history
    &&& post.previous_capsule == pre.previous_capsule
    &&& same_ui(pre, post)
}

impl App {
    /// Append the current URL to the history unless it is already the
    /// top entry.
    fn push_history(&mut self)
        requires
            old(self).wf(),
        ensures
            final(self).wf(),
            hist_view(final(self).capsule_history@) == pushed_history(
                hist_view(old(self).capsule_history@),
                old(self).url@,
            ),
            final(self).url == old(self).url,
            final(self).items == old(self).items,
            final(self).error == old(self).error,
            final(self).previous_capsule == old(self).previous_capsule,
            final(self).request_url == old(self).request_url,
            final(self).redirected == old(self).redirected,
            same_ui(*old(self), *final(self)),
    {
        let n = self.capsule_history.len();
        let dup = if n == 0 {
            false
        } else {
            str_eq(self.capsule_history[n - 1].as_str(), self.url.as_str())
        };
        if !dup {
            self.capsule_history.push(self.url.clone());
            proof {
                assert(hist_view(self.capsule_history@) =~= hist_view(
                    old(self).capsule_history@,
                ).push(old(self).url@));
            }
        }
    }

    /// Settle the cycle as a protocol failure with message `meta`.
    fn settle_failure(&mut self, meta: String)
        requires
            old(self).wf(),
        ensures
            final(self).wf(),
            failure_settled(*old(self), *final(self), meta@),
            final(self).request_url == old(self).request_url,
            final(self).redirected == old(self).redirected,
    {
        let mut spans: Vec<StyledSpan> = Vec::new();
        spans.push(StyledSpan { text: meta.clone(), style: TextStyle::Plain });
        let mut rows: Vec<DisplayRow> = Vec::new();
        let row = DisplayRow { spans, link: None, pre: false };
        proof {
            assert(row@ =~= failure_row(meta@));
        }
        rows.push(row);
        proof {
            assert(rows_model(rows@) =~= seq![failure_row(meta@)]);
        }
        self.items = StatefulList::with_items(rows);
        let target = self.request_url.clone();
        self.set_url(target);
        self.push_history();
        self.error = Some(meta);
    }

    /// Feed one fetch outcome into the session.  `Refetch` asks the
    /// caller to fetch the (updated) request target once more.
    pub fn apply_response(&mut self, outcome: ResponseOutcome) -> (step: NavStep)
        requires
            old(self).wf(),
            old(self).input_mode is Normal,
        ensures
            final(self).wf(),
            final(self).wrap_at == old(self).wrap_at,
            match outcome {
                ResponseOutcome::TransportError { message } => {
                    &&& step is Done
                    &&& transport_failed(*old(self), *final(self), message@)
                    &&& final(self).request_url == old(self).request_url
                },
                ResponseOutcome::Redirect { permanent, target } => {
                    if !old(self).redirected {
                        let r = resolved(old(self).request_url@, target@);
                        if is_capsule_url(r) {
                            &&& step is Refetch
                            &&& final(self).request_url@ == r
                            &&& final(self).redirected
                            &&& final(self).url == old(self).url
                            &&& final(self).items == old(self).items
                            &&& final(self).capsule_history == old(self).capsule_history
                            &&& final(self).previous_capsule == old(self).previous_capsule
                            &&& final(self).error == old(self).error
                            &&& same_ui(*old(self), *final(self))
                        } else {
                            &&& step is Done
                            &&& (final(self).error matches Some(m) && m@ == "Invalid URL: "@ + r)
                            &&& final(self).url == old(self).url
                            &&& final(self).items == old(self).items
                            &&& final(self).capsule_history == old(self).capsule_history
                            &&& final(self).previous_capsule == old(self).previous_capsule
                            &&& same_ui(*old(self), *final(self))
                        }
                    } else {
                        &&& step is Done
                        &&& failure_settled(*old(self), *final(self), target@)
                    }
                },
                ResponseOutcome::InputRequired { sensitive, prompt } => {
                    &&& step is Done
                    &&& input_pending(*old(self), *final(self), prompt@)
                },
                ResponseOutcome::Success { body, meta } => {
                    &&& step is Done
                    &&& success_settled(*old(self), *final(self), body@)
                },
                ResponseOutcome::Failure { meta } => {
                    &&& step is Done
                    &&& failure_settled(*old(self), *final(self), meta@)
                },
            },
    {
        match outcome {
            ResponseOutcome::TransportError { message } => {
                self.error = Some(message);
                NavStep::Done
            },
            ResponseOutcome::Redirect { permanent: _, target } => {
                if !self.redirected {
                    let r = resolve(self.request_url.as_str(), target.as_str());
                    if check_capsule_url(r.as_str()) {
                        self.request_url = r;
                        self.redirected = true;
                        NavStep::Refetch
                    } else {
                        let mut msg = String::from_str("Invalid URL: ");
                        msg.append(r.as_str());
                        self.error = Some(msg);
                        NavStep::Done
                    }
                } else {
                    self.settle_failure(target);
                    NavStep::Done
                }
            },
            ResponseOutcome::InputRequired { sensitive: _, prompt } => {
                let target = self.request_url.clone();
                self.set_url(target);
                self.accept_response_input = true;
                self.response_input_text = prompt;
                NavStep::Done
            },
            ResponseOutcome::Success { body, meta: _ } => {
                let rows = adapt(body.as_str(), self.wrap_at);
                self.items = StatefulList::with_items(rows);
                let target = self.request_url.clone();
                self.set_url(target);
                self.push_history();
                self.error = None;
                NavStep::Done
            },
            ResponseOutcome::Failure { meta } => {
                self.settle_failure(meta);
                NavStep::Done
            },
        }
    }
}

/// Law: arriving twice in a row at the same URL grows the history only
/// once — a duplicate push changes nothing.
pub proof fn lemma_history_no_duplicate_top(h: Seq<Seq<char>>, u: Seq<char>)
    ensures
        pushed_history(pushed_history(h, u), u) == pushed_history(h, u),
{
}

/// Law: a back step followed by a forward step returns to the page the
/// back press left, when no navigation intervened.
pub proof fn lemma_back_then_forward(s0: App, s1: App, s2: App, s3: App)
    requires
        back_started(s0, s1),
        settled(s1, s2),
        forward_started(s2, s3),
    ensures
        s3.request_url@ == s0.url@,
{
}

/// Law: any navigation that settles between the back press and the
/// forward press re-aims the forward slot at its own departure page, so
/// forward returns to the page the back press left only when nothing
/// intervened (or when the two pages coincide).
pub proof fn lemma_intervening_settle_moves_slot(
    s0: App,
    s1: App,
    s2: App,
    s3: App,
    s4: App,
    s5: App,
)
    requires
        back_started(s0, s1),
        settled(s1, s2),
        s3.url == s2.url,
        settled(s3, s4),
        forward_started(s4, s5),
    ensures
        s5.request_url@ == s2.url@,
{
}

/// Law: the forward slot is single-level.  After two back steps in a
/// row, forward requests the first back's landing page, not the page
/// everything started from.
pub proof fn lemma_forward_single_level(s0: App, s1: App, s2: App, s3: App, s4: App, s5: App)
    requires
        back_started(s0, s1),
        settled(s1, s2),
        back_started(s2, s3),
        settled(s3, s4),
        forward_started(s4, s5),
    ensures
        s5.request_url@ == s2.url@,
{
}

} // verus!
