//! The session state: the current URL, the visited-capsule stack, the
//! single-slot forward shortcut, the display rows, the input buffers and
//! the wrap width.  Navigation is split in two: a handler primes the
//! session with a request target, and the fetch cycle settles it with
//! the response outcome.

use vstd::prelude::*;

use crate::command::DEFAULT_WRAP_WIDTH;
use crate::input::Mode;
use crate::resolve::{check_capsule_url, is_capsule_url};
use crate::rows::DisplayRow;
use crate::stateful_list::StatefulList;
use crate::text::str_eq;

verus! {

pub struct App {
    /// The display rows with their selection cursor.
    pub items: StatefulList<DisplayRow>,
    /// The command-line buffer.
    pub input: String,
    /// Keystroke interpretation mode.
    pub input_mode: Mode,
    /// A 'g' was pressed and awaits its partner.
    pub pending_chord: bool,
    /// Typed command lines, newest first.
    pub command_history: Vec<String>,
    /// Replay position in the command history.
    pub command_history_cursor: usize,
    /// The last error, shown until the next keystroke clears it.
    pub error: Option<String>,
    /// The URL of the page on display; always well-formed.
    pub url: String,
    /// Previously visited capsule URLs, oldest first.
    pub capsule_history: Vec<String>,
    /// The single-slot forward shortcut: the page left by the last
    /// settled navigation.
    pub previous_capsule: Option<String>,
    /// The buffer typed in answer to a server input prompt.
    pub response_input: String,
    /// A server input prompt is awaiting an answer.
    pub accept_response_input: bool,
    /// The prompt text of the awaited server input.
    pub response_input_text: String,
    /// The wrap width for plain text rows, in characters.
    pub wrap_at: usize,
    /// The target of the fetch cycle now in flight; always well-formed.
    pub request_url: String,
    /// The fetch cycle has already followed one redirect.
    pub redirected: bool,
}

/// A history stack as a sequence of character sequences.
pub open spec fn hist_view(h: Seq<String>) -> Seq<Seq<char>> {
    h.map_values(|s: String| s@)
}

/// What one "go back" press does to the stack: the top is popped; a top
/// equal to the page on display is popped once more; the new top-most
/// popped entry, if any, is the page to return to.
pub open spec fn back_plan(h: Seq<Seq<char>>, cur: Seq<char>) -> (Seq<Seq<char>>, Option<
    Seq<char>,
>) {
    if h.len() == 0 {
        (h, None)
    } else if h.last() == cur {
        if h.len() == 1 {
            (h.drop_last(), None)
        } else {
            (h.drop_last().drop_last(), Some(h[h.len() - 2]))
        }
    } else {
        (h.drop_last(), Some(h.last()))
    }
}

/// The parts of the session no navigation step touches.
pub open spec fn same_ui(a: App, b: App) -> bool {
    &&& a.input == b.input
    &&& a.input_mode == b.input_mode
    &&& a.pending_chord == b.pending_chord
    &&& a.command_history == b.command_history
    &&& a.command_history_cursor == b.command_history_cursor
    &&& a.response_input == b.response_input
    &&& a.accept_response_input == b.accept_response_input
    &&& a.response_input_text == b.response_input_text
    &&& a.wrap_at == b.wrap_at
}

/// A back press was primed: the stack shrank by its plan and the
/// session asks for a fetch of the planned target.
pub open spec fn back_started(pre: App, post: App) -> bool {
    &&& post.url == pre.url
    &&& post.previous_capsule == pre.previous_capsule
    &&& hist_view(post.capsule_history@) == back_plan(
        hist_view(pre.capsule_history@),
        pre.url@,
    ).0
    &&& (back_plan(hist_view(pre.capsule_history@), pre.url@).1 matches Some(t)
        && post.request_url@ == t)
}

/// A forward press was primed: the slot's URL becomes the request and
/// the slot is cleared by its use.
pub open spec fn forward_started(pre: App, post: App) -> bool {
    &&& (pre.previous_capsule matches Some(p) && post.request_url@ == p@)
    &&& post.previous_capsule is None
    &&& post.url == pre.url
    &&& post.capsule_history == pre.capsule_history
}

impl App {
    /// Every URL the session holds is well-formed, the selection is in
    /// bounds, and a pending server prompt excludes command editing.
    pub open spec fn wf(&self) -> bool {
        &&& is_capsule_url(self.url@)
        &&& is_capsule_url(self.request_url@)
        &&& self.items.wf()
        &&& (self.previous_capsule matches Some(p) ==> is_capsule_url(p@))
        &&& forall|i: int|
            0 <= i < self.capsule_history@.len() ==> is_capsule_url(
                (#[trigger] self.capsule_history@[i])@,
            )
        &&& (self.accept_response_input ==> self.input_mode is Normal)
    }

    /// A fresh session, on the home capsule, with nothing fetched yet.
    pub fn new() -> (app: App)
        ensures
            app.wf(),
            app.url@ == "gemini://gem.rest/projects/sydney.gmi"@,
            app.request_url@ == app.url@,
            app.items.items@.len() == 0,
            app.input@.len() == 0,
            app.input_mode is Normal,
            !app.pending_chord,
            app.command_history@.len() == 0,
            app.command_history_cursor == 0,
            app.error is None,
            app.capsule_history@.len() == 0,
            app.previous_capsule is None,
            app.response_input@.len() == 0,
            !app.accept_response_input,
            app.response_input_text@.len() == 0,
            app.wrap_at == DEFAULT_WRAP_WIDTH,
            !app.redirected,
    {
        let url = String::from_str("gemini://gem.rest/projects/sydney.gmi");
        let request_url = String::from_str("gemini://gem.rest/projects/sydney.gmi");
        proof {
            reveal_strlit("gemini://gem.rest/projects/sydney.gmi");
            assert(url@.subrange(0, 9) =~= crate::resolve::gemini_prefix());
        }
        App {
            items: StatefulList::with_items(Vec::new()),
            input: String::new(),
            input_mode: Mode::Normal,
            pending_chord: false,
            command_history: Vec::new(),
            command_history_cursor: 0,
            error: None,
            url,
            capsule_history: Vec::new(),
            previous_capsule: None,
            response_input: String::new(),
            accept_response_input: false,
            response_input_text: String::new(),
            wrap_at: DEFAULT_WRAP_WIDTH,
            request_url,
            redirected: false,
        }
    }

    /// Make `url` current and remember the page it replaces in the
    /// forward slot.
    pub fn set_url(&mut self, url: String)
        requires
            old(self).wf(),
            is_capsule_url(url@),
        ensures
            final(self).wf(),
            final(self).url == url,
            final(self).previous_capsule == Some(old(self).url),
            final(self).items == old(self).items,
            final(self).error == old(self).error,
            final(self).capsule_history == old(self).capsule_history,
            final(self).request_url == old(self).request_url,
            final(self).redirected == old(self).redirected,
            same_ui(*old(self), *final(self)),
    {
        let previous = self.url.clone();
        self.url = url;
        self.previous_capsule = Some(previous);
    }

    /// Prime a fetch of `target`.  A malformed target is refused with an
    /// error and nothing else changes.
    pub fn start_request(&mut self, target: String) -> (ok: bool)
        requires
            old(self).wf(),
        ensures
            final(self).wf(),
            ok == is_capsule_url(target@),
            final(self).url == old(self).url,
            final(self).items == old(self).items,
            final(self).capsule_history == old(self).capsule_history,
            final(self).previous_capsule == old(self).previous_capsule,
            same_ui(*old(self), *final(self)),
            ok ==> final(self).request_url == target && !final(self).redirected
                && final(self).error == old(self).error,
            !ok ==> final(self).request_url == old(self).request_url && final(self).redirected
                == old(self).redirected && (final(self).error matches Some(m) && m@
                == "Invalid URL: "@ + target@),
    {
        if check_capsule_url(target.as_str()) {
            self.request_url = target;
            self.redirected = false;
            true
        } else {
            let mut msg = String::from_str("Invalid URL: ");
            msg.append(target.as_str());
            self.error = Some(msg);
            false
        }
    }

    /// One "go back" press: pop the stack (twice over a duplicate top)
    /// and prime a fetch of the page found there.  With the stack
    /// exhausted nothing happens.
    pub fn go_back(&mut self) -> (nav: bool)
        requires
            old(self).wf(),
        ensures
            final(self).wf(),
            final(self).url == old(self).url,
            final(self).items == old(self).items,
            final(self).error == old(self).error,
            final(self).previous_capsule == old(self).previous_capsule,
            same_ui(*old(self), *final(self)),
            nav == (back_plan(hist_view(old(self).capsule_history@), old(self).url@).1 is Some),
            nav ==> back_started(*old(self), *final(self)) && !final(self).redirected,
            !nav ==> final(self).request_url == old(self).request_url && final(self).redirected
                == old(self).redirected && hist_view(final(self).capsule_history@) == back_plan(
                hist_view(old(self).capsule_history@),
                old(self).url@,
            ).0,
    {
        let ghost h0 = hist_view(self.capsule_history@);
        let popped = match self.capsule_history.pop() {
            Some(u) => u,
            None => {
                return false;
            },
        };
        proof {
            assert(hist_view(self.capsule_history@) =~= h0.drop_last());
            assert(h0.last() == popped@);
        }
        if str_eq(popped.as_str(), self.url.as_str()) {
            let target = match self.capsule_history.pop() {
                Some(u) => u,
                None => {
                    proof {
                        assert(hist_view(self.capsule_history@) =~= h0.drop_last());
                    }
                    return false;
                },
            };
            proof {
                assert(hist_view(self.capsule_history@) =~= h0.drop_last().drop_last());
                assert(h0.drop_last().last() == target@);
                assert(h0[h0.len() - 2] == target@);
            }
            self.request_url = target;
            self.redirected = false;
            true
        } else {
            self.request_url = popped;
            self.redirected = false;
            true
        }
    }

    /// One "go forward" press: prime a fetch of the page in the forward
    /// slot and clear the slot.  An empty slot does nothing.
    pub fn go_forward(&mut self) -> (nav: bool)
        requires
            old(self).wf(),
        ensures
            final(self).wf(),
            final(self).url == old(self).url,
            final(self).items == old(self).items,
            final(self).error == old(self).error,
            final(self).capsule_history == old(self).capsule_history,
            same_ui(*old(self), *final(self)),
            nav == (old(self).previous_capsule is Some),
            nav ==> forward_started(*old(self), *final(self)) && !final(self).redirected,
            !nav ==> final(self).previous_capsule == old(self).previous_capsule
                && final(self).request_url == old(self).request_url && final(self).redirected
                == old(self).redirected,
    {
        let slot: Option<String> = match &self.previous_capsule {
            Some(u) => Some(u.clone()),
            None => None,
        };
        match slot {
            Some(u) => {
                self.previous_capsule = None;
                self.request_url = u;
                self.redirected = false;
                true
            },
            None => false,
        }
    }
}

} // verus!
