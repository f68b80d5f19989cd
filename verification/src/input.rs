//! The input dispatcher: a mode-keyed state machine that turns
//! keystrokes into session mutations and navigation requests.
//!
//! Three modes: plain navigation, command-line editing, and answering a
//! server input prompt.  Every handler only mutates the session and
//! reports what the caller must do next; the fetch cycle itself is the
//! caller's business.

use vstd::prelude::*;

use crate::command::{
    arg_of, dec_val, has_arg, num_body, numeral_error_text, valid_usize_numeral, verb_of, Command,
};
use crate::resolve::{
    base_of, check_gemini_prefix, check_scheme_sep, gemini_prefix, has_gemini_prefix,
    has_scheme_sep, is_capsule_url, lemma_append_keeps_wf, lemma_base_of_wf, resolve, resolved,
    strip_query,
};
use crate::session::{back_plan, back_started, forward_started, hist_view, App};
use crate::stateful_list::{wrap_next, wrap_previous};

verus! {

/// The keystroke interpretation mode.
#[derive(PartialEq, Eq, Structural, Clone, Copy, Debug)]
pub enum Mode {
    Normal,
    Editing,
}

/// A keystroke, already freed of any terminal encoding.
#[derive(PartialEq, Eq, Structural, Clone, Copy, Debug)]
pub enum Key {
    Char(char),
    Enter,
    Backspace,
    Esc,
    Up,
    Down,
    Left,
    Right,
    Other,
}

/// What the caller of the dispatcher must do next: nothing, quit the
/// client, or perform the fetch cycle the session has been primed for.
#[derive(PartialEq, Eq, Structural, Clone, Copy, Debug)]
pub enum Dispatch {
    Continue,
    Quit,
    Navigate,
}

/// The link carried by the row the selection rests on, if any.
pub open spec fn selected_link(a: App) -> Option<Seq<char>> {
    if a.items.items@.len() > 0 {
        match a.items.items@[a.items.selected as int].link {
            Some(l) => Some(l@),
            None => None,
        }
    } else {
        None
    }
}

/// A link under a scheme this client does not follow.
pub open spec fn foreign_link(t: Seq<char>) -> bool {
    has_scheme_sep(t) && !has_gemini_prefix(t)
}

/// What one keystroke does in navigation mode.
pub open spec fn normal_effect(pre: App, post: App, key: Key, d: Dispatch) -> bool {
    match key {
        Key::Char(c) => if c == ':' {
            &&& d is Continue
            &&& post == (App {
                input: post.input,
                input_mode: Mode::Editing,
                error: None,
                pending_chord: false,
                ..pre
            })
            &&& post.input@.len() == 0
        } else if c == 'j' {
            stepped_down(pre, post) && d is Continue
        } else if c == 'k' {
            stepped_up(pre, post) && d is Continue
        } else if c == 'h' {
            back_effect(pre, post, d)
        } else if c == 'l' {
            forward_effect(pre, post, d)
        } else if c == 'G' {
            &&& d is Continue
            &&& post == (App { items: post.items, pending_chord: false, ..pre })
            &&& post.items.items == pre.items.items
            &&& post.items.selected as int == if pre.items.items@.len() == 0 {
                0
            } else {
                pre.items.items@.len() - 1
            }
            &&& post.items.cursor == Some(post.items.selected)
        } else if c == 'g' {
            &&& d is Continue
            &&& if pre.pending_chord {
                &&& post == (App { items: post.items, pending_chord: false, ..pre })
                &&& post.items.items == pre.items.items
                &&& post.items.selected == 0
                &&& post.items.cursor == Some(0usize)
            } else {
                post == (App { pending_chord: true, ..pre })
            }
        } else {
            d is Continue && post == (App { pending_chord: false, ..pre })
        },
        Key::Down => stepped_down(pre, post) && d is Continue,
        Key::Up => stepped_up(pre, post) && d is Continue,
        Key::Left => back_effect(pre, post, d),
        Key::Right => forward_effect(pre, post, d),
        Key::Esc => {
            &&& d is Continue
            &&& post == (App { items: post.items, pending_chord: false, ..pre })
            &&& post.items.items == pre.items.items
            &&& post.items.selected == pre.items.selected
            &&& post.items.cursor is None
        },
        Key::Backspace => d is Continue && post == (App {
            error: None,
            pending_chord: false,
            ..pre
        }),
        Key::Enter => follow_effect(pre, post, d),
        Key::Other => d is Continue && post == (App { pending_chord: false, ..pre }),
    }
}

/// The selection moved one row down, the error cleared.
pub open spec fn stepped_down(pre: App, post: App) -> bool {
    &&& post == (App { items: post.items, error: None, pending_chord: false, ..pre })
    &&& post.items.items == pre.items.items
    &&& post.items.selected as int == wrap_next(pre.items.cursor, pre.items.items@.len() as nat)
    &&& post.items.cursor == Some(post.items.selected)
}

/// The selection moved one row up, the error cleared.
pub open spec fn stepped_up(pre: App, post: App) -> bool {
    &&& post == (App { items: post.items, error: None, pending_chord: false, ..pre })
    &&& post.items.items == pre.items.items
    &&& post.items.selected as int == wrap_previous(
        pre.items.cursor,
        pre.items.items@.len() as nat,
    )
    &&& post.items.cursor == Some(post.items.selected)
}

/// A "go back" press: the stack is popped by its plan and a fetch is
/// primed when a page was found.
pub open spec fn back_effect(pre: App, post: App, d: Dispatch) -> bool {
    let cleared = App { pending_chord: false, ..pre };
    let plan = back_plan(hist_view(pre.capsule_history@), pre.url@);
    &&& (d is Navigate <==> plan.1 is Some)
    &&& !(d is Quit)
    &&& (plan.1 is Some ==> back_started(cleared, post) && !post.redirected)
    &&& (plan.1 is None ==> post == (App {
        capsule_history: post.capsule_history,
        pending_chord: false,
        ..pre
    }) && hist_view(post.capsule_history@) == plan.0)
    &&& post.input == pre.input
    &&& post.input_mode == pre.input_mode
    &&& !post.pending_chord
    &&& post.error == pre.error
}

/// A "go forward" press: the slot is used and cleared when it was full.
pub open spec fn forward_effect(pre: App, post: App, d: Dispatch) -> bool {
    let cleared = App { pending_chord: false, ..pre };
    &&& (d is Navigate <==> pre.previous_capsule is Some)
    &&& !(d is Quit)
    &&& (pre.previous_capsule is Some ==> forward_started(cleared, post) && !post.redirected)
    &&& (pre.previous_capsule is None ==> post == cleared)
    &&& post.input == pre.input
    &&& post.input_mode == pre.input_mode
    &&& !post.pending_chord
    &&& post.error == pre.error
}

/// An Enter press on the selected row: follow its link unless the link
/// is foreign; resolution failures surface as an error.
pub open spec fn follow_effect(pre: App, post: App, d: Dispatch) -> bool {
    match selected_link(pre) {
        Some(t) => if foreign_link(t) {
            d is Continue && post == (App { error: None, pending_chord: false, ..pre })
        } else {
            let r = resolved(pre.url@, t);
            if is_capsule_url(r) {
                &&& d is Navigate
                &&& post == (App {
                    error: None,
                    pending_chord: false,
                    request_url: post.request_url,
                    redirected: false,
                    ..pre
                })
                &&& post.request_url@ == r
            } else {
                &&& d is Continue
                &&& post == (App { error: post.error, pending_chord: false, ..pre })
                &&& (post.error matches Some(m) && m@ == "Invalid URL: "@ + r)
            }
        },
        None => d is Continue && post == (App { error: None, pending_chord: false, ..pre }),
    }
}

/// What one keystroke does in command-editing mode.
pub open spec fn editing_effect(pre: App, post: App, key: Key, d: Dispatch) -> bool {
    match key {
        Key::Char(c) => {
            &&& d is Continue
            &&& post == (App { input: post.input, ..pre })
            &&& post.input@ == pre.input@.push(c)
        },
        Key::Backspace => {
            &&& d is Continue
            &&& post == (App { input: post.input, ..pre })
            &&& post.input@ == (if pre.input@.len() > 0 {
                pre.input@.drop_last()
            } else {
                pre.input@
            })
        },
        Key::Esc => {
            &&& d is Continue
            &&& post == (App { input: post.input, input_mode: Mode::Normal, ..pre })
            &&& post.input@.len() == 0
        },
        Key::Up => {
            let ch = hist_view(pre.command_history@);
            let cur = pre.command_history_cursor;
            &&& d is Continue
            &&& if (cur as int) < ch.len() {
                &&& post == (App {
                    input: post.input,
                    command_history_cursor: post.command_history_cursor,
                    ..pre
                })
                &&& post.input@ == ch[cur as int]
                &&& post.command_history_cursor as int == (if cur as int + 1 < ch.len() {
                    cur as int + 1
                } else {
                    cur as int
                })
            } else {
                post == pre
            }
        },
        Key::Down => {
            let ch = hist_view(pre.command_history@);
            let cur = pre.command_history_cursor;
            &&& d is Continue
            &&& if cur == 0 {
                &&& post == (App { input: post.input, ..pre })
                &&& post.input@.len() == 0
            } else {
                &&& post == (App {
                    input: post.input,
                    command_history_cursor: (cur - 1) as usize,
                    ..pre
                })
                &&& post.input@ == (if cur as int - 1 < ch.len() {
                    ch[cur as int - 1]
                } else {
                    pre.input@
                })
            }
        },
        Key::Enter => submit_effect(pre, post, d),
        _ => d is Continue && post == pre,
    }
}

/// An Enter press in command-editing mode: the line joins the command
/// history, is parsed, and the command takes effect.
pub open spec fn submit_effect(pre: App, post: App, d: Dispatch) -> bool {
    let s = pre.input@;
    let v = verb_of(s);
    &&& hist_view(post.command_history@) == hist_view(pre.command_history@).insert(0, s)
    &&& if v == "quit"@ || v == "q"@ {
        &&& d is Quit
        &&& post == (App { command_history: post.command_history, ..pre })
    } else {
        &&& !(d is Quit)
        &&& post.input_mode is Normal
        &&& post.command_history_cursor == 0
        &&& post.input == pre.input
        &&& command_effect(pre, post, d)
    }
}

/// The effect of one parsed, non-quit command line.
pub open spec fn command_effect(pre: App, post: App, d: Dispatch) -> bool {
    let s = pre.input@;
    let v = verb_of(s);
    let rest_same = {
        &&& post.url == pre.url
        &&& post.items == pre.items
        &&& post.capsule_history == pre.capsule_history
        &&& post.previous_capsule == pre.previous_capsule
        &&& post.response_input == pre.response_input
        &&& post.accept_response_input == pre.accept_response_input
        &&& post.response_input_text == pre.response_input_text
        &&& post.pending_chord == pre.pending_chord
    };
    if v == "open"@ || v == "o"@ {
        if has_arg(s) {
            let a = arg_of(s);
            let t = if has_gemini_prefix(a) {
                a
            } else {
                gemini_prefix() + a
            };
            &&& rest_same
            &&& post.wrap_at == pre.wrap_at
            &&& if is_capsule_url(t) {
                &&& d is Navigate
                &&& post.request_url@ == t
                &&& !post.redirected
                &&& post.error == pre.error
            } else {
                &&& d is Continue
                &&& (post.error matches Some(m) && m@ == "Invalid URL: "@ + t)
                &&& post.request_url == pre.request_url
            }
        } else {
            &&& d is Continue
            &&& rest_same
            &&& post.wrap_at == pre.wrap_at
            &&& post.request_url == pre.request_url
            &&& (post.error matches Some(m) && m@ == "No URL provided for open command"@)
        }
    } else if v == "wrap"@ {
        if has_arg(s) && valid_usize_numeral(arg_of(s)) {
            &&& d is Navigate
            &&& rest_same
            &&& post.wrap_at as int == dec_val(num_body(arg_of(s)))
            &&& post.error is None
            &&& post.request_url@ == pre.url@
            &&& !post.redirected
        } else {
            &&& d is Continue
            &&& rest_same
            &&& post.wrap_at == pre.wrap_at
            &&& post.request_url == pre.request_url
            &&& (post.error matches Some(m) && m@ == (if has_arg(s) {
                numeral_error_text(arg_of(s))
            } else {
                "Missing width argument to wrap command"@
            }))
        }
    } else {
        &&& d is Continue
        &&& rest_same
        &&& post.wrap_at == pre.wrap_at
        &&& post.request_url == pre.request_url
        &&& (post.error matches Some(m) && m@ == "\""@ + s + "\" is not a valid command"@)
    }
}

/// What one keystroke does while a server input prompt is pending.
pub open spec fn response_effect(pre: App, post: App, key: Key, d: Dispatch) -> bool {
    match key {
        Key::Char(c) => {
            &&& d is Continue
            &&& post == (App { response_input: post.response_input, ..pre })
            &&& post.response_input@ == pre.response_input@.push(c)
        },
        Key::Backspace => {
            &&& d is Continue
            &&& post == (App { response_input: post.response_input, ..pre })
            &&& post.response_input@ == (if pre.response_input@.len() > 0 {
                pre.response_input@.drop_last()
            } else {
                pre.response_input@
            })
        },
        Key::Enter => {
            &&& d is Navigate
            &&& post == (App {
                response_input: post.response_input,
                response_input_text: post.response_input_text,
                accept_response_input: false,
                request_url: post.request_url,
                redirected: false,
                ..pre
            })
            &&& post.request_url@ == base_of(pre.url@) + seq!['?'] + pre.response_input@
            &&& post.response_input@.len() == 0
            &&& post.response_input_text@.len() == 0
        },
        Key::Esc => {
            let plan = back_plan(hist_view(pre.capsule_history@), pre.url@);
            let cleared = App {
                response_input: post.response_input,
                response_input_text: post.response_input_text,
                accept_response_input: false,
                ..pre
            };
            &&& post.response_input@.len() == 0
            &&& post.response_input_text@.len() == 0
            &&& !post.accept_response_input
            &&& (d is Navigate <==> plan.1 is Some)
            &&& !(d is Quit)
            &&& (plan.1 is Some ==> back_started(cleared, post) && !post.redirected)
            &&& (plan.1 is None ==> post == (App {
                capsule_history: post.capsule_history,
                ..cleared
            }) && hist_view(post.capsule_history@) == plan.0)
        },
        _ => d is Continue && post == pre,
    }
}

impl App {
    /// One keystroke in navigation mode.
    fn handle_normal_input(&mut self, key: Key) -> (d: Dispatch)
        requires
            old(self).wf(),
            old(self).input_mode is Normal,
            !old(self).accept_response_input,
        ensures
            final(self).wf(),
            normal_effect(*old(self), *final(self), key, d),
    {
        match key {
            Key::Char(c) => {
                if c == ':' {
                    self.pending_chord = false;
                    self.input = String::new();
                    self.input_mode = Mode::Editing;
                    self.error = None;
                    Dispatch::Continue
                } else if c == 'j' {
                    self.pending_chord = false;
                    self.items.next();
                    self.error = None;
                    Dispatch::Continue
                } else if c == 'k' {
                    self.pending_chord = false;
                    self.items.previous();
                    self.error = None;
                    Dispatch::Continue
                } else if c == 'h' {
                    self.pending_chord = false;
                    if self.go_back() {
                        Dispatch::Navigate
                    } else {
                        Dispatch::Continue
                    }
                } else if c == 'l' {
                    self.pending_chord = false;
                    if self.go_forward() {
                        Dispatch::Navigate
                    } else {
                        Dispatch::Continue
                    }
                } else if c == 'G' {
                    self.pending_chord = false;
                    self.items.last();
                    Dispatch::Continue
                } else if c == 'g' {
                    if self.pending_chord {
                        self.items.first();
                        self.pending_chord = false;
                    } else {
                        self.pending_chord = true;
                    }
                    Dispatch::Continue
                } else {
                    self.pending_chord = false;
                    Dispatch::Continue
                }
            },
            Key::Down => {
                self.pending_chord = false;
                self.items.next();
                self.error = None;
                Dispatch::Continue
            },
            Key::Up => {
                self.pending_chord = false;
                self.items.previous();
                self.error = None;
                Dispatch::Continue
            },
            Key::Left => {
                self.pending_chord = false;
                if self.go_back() {
                    Dispatch::Navigate
                } else {
                    Dispatch::Continue
                }
            },
            Key::Right => {
                self.pending_chord = false;
                if self.go_forward() {
                    Dispatch::Navigate
                } else {
                    Dispatch::Continue
                }
            },
            Key::Esc => {
                self.pending_chord = false;
                self.items.unselect();
                Dispatch::Continue
            },
            Key::Backspace => {
                self.pending_chord = false;
                self.error = None;
                Dispatch::Continue
            },
            Key::Enter => {
                self.pending_chord = false;
                self.error = None;
                if self.items.items.len() == 0 {
                    return Dispatch::Continue;
                }
                let link: Option<String> = match &self.items.items[self.items.selected].link {
                    Some(l) => Some(l.clone()),
                    None => None,
                };
                match link {
                    Some(t) => {
                        let foreign = check_scheme_sep(t.as_str()) && !check_gemini_prefix(
                            t.as_str(),
                        );
                        if foreign {
                            Dispatch::Continue
                        } else {
                            let r = resolve(self.url.as_str(), t.as_str());
                            if self.start_request(r) {
                                Dispatch::Navigate
                            } else {
                                Dispatch::Continue
                            }
                        }
                    },
                    None => Dispatch::Continue,
                }
            },
            Key::Other => {
                self.pending_chord = false;
                Dispatch::Continue
            },
        }
    }

    /// One keystroke in command-editing mode.
    fn handle_editing_input(&mut self, key: Key) -> (d: Dispatch)
        requires
            old(self).wf(),
            old(self).input_mode is Editing,
        ensures
            final(self).wf(),
            editing_effect(*old(self), *final(self), key, d),
    {
        match key {
            Key::Char(c) => {
                self.input.push(c);
                Dispatch::Continue
            },
            Key::Backspace => {
                let _ = self.input.pop();
                Dispatch::Continue
            },
            Key::Esc => {
                self.input_mode = Mode::Normal;
                self.input = String::new();
                Dispatch::Continue
            },
            Key::Up => {
                if self.command_history_cursor < self.command_history.len() {
                    self.input = self.command_history[self.command_history_cursor].clone();
                    proof {
                        assert(self.input@ == hist_view(
                            self.command_history@,
                        )[self.command_history_cursor as int]);
                    }
                    if self.command_history_cursor + 1 < self.command_history.len() {
                        self.command_history_cursor = self.command_history_cursor + 1;
                    }
                }
                Dispatch::Continue
            },
            Key::Down => {
                if self.command_history_cursor == 0 {
                    self.input = String::new();
                } else {
                    self.command_history_cursor = self.command_history_cursor - 1;
                    if self.command_history_cursor < self.command_history.len() {
                        self.input = self.command_history[self.command_history_cursor].clone();
                        proof {
                            assert(self.input@ == hist_view(
                                self.command_history@,
                            )[self.command_history_cursor as int]);
                        }
                    }
                }
                Dispatch::Continue
            },
            Key::Enter => self.submit_command(),
            _ => Dispatch::Continue,
        }
    }

    /// Submit the command line: record it, parse it, act on it.
    fn submit_command(&mut self) -> (d: Dispatch)
        requires
            old(self).wf(),
            old(self).input_mode is Editing,
        ensures
            final(self).wf(),
            submit_effect(*old(self), *final(self), d),
    {
        self.command_history.insert(0, self.input.clone());
        proof {
            reveal_strlit("open");
            reveal_strlit("o");
            reveal_strlit("quit");
            reveal_strlit("q");
            reveal_strlit("wrap");
            assert("open"@[0] == 'o' && "o"@[0] == 'o' && "wrap"@[0] == 'w' && "quit"@[0]
                == 'q' && "q"@[0] == 'q');
            assert("open"@.len() == 4 && "o"@.len() == 1 && "wrap"@.len() == 4 && "quit"@.len()
                == 4 && "q"@.len() == 1);
            assert("open"@ != "quit"@ && "open"@ != "q"@ && "o"@ != "quit"@ && "o"@ != "q"@);
            assert("wrap"@ != "quit"@ && "wrap"@ != "q"@);
            assert(hist_view(self.command_history@) =~= hist_view(
                old(self).command_history@,
            ).insert(0, old(self).input@));
        }
        let cmd = Command::from(&self.input);
        match cmd {
            Command::Quit => Dispatch::Quit,
            Command::Open(to) => {
                let d = match to {
                    Some(to) => {
                        let target = if check_gemini_prefix(to.as_str()) {
                            to
                        } else {
                            let mut t = String::from_str("gemini://");
                            proof {
                                reveal_strlit("gemini://");
                                assert("gemini://"@ =~= gemini_prefix());
                            }
                            t.append(to.as_str());
                            t
                        };
                        if self.start_request(target) {
                            Dispatch::Navigate
                        } else {
                            Dispatch::Continue
                        }
                    },
                    None => {
                        self.error = Some(String::from_str("No URL provided for open command"));
                        Dispatch::Continue
                    },
                };
                self.input_mode = Mode::Normal;
                self.command_history_cursor = 0;
                d
            },
            Command::Unknown => {
                let mut msg = String::from_str("\"");
                msg.append(self.input.as_str());
                msg.append("\" is not a valid command");
                self.error = Some(msg);
                self.input_mode = Mode::Normal;
                self.command_history_cursor = 0;
                Dispatch::Continue
            },
            Command::Wrap(at, err) => {
                let d = match err {
                    Some(e) => {
                        self.error = Some(e);
                        Dispatch::Continue
                    },
                    None => {
                        self.error = None;
                        self.wrap_at = at;
                        let cur = self.url.clone();
                        let ok = self.start_request(cur);
                        proof {
                            assert(ok);
                        }
                        Dispatch::Navigate
                    },
                };
                self.input_mode = Mode::Normal;
                self.command_history_cursor = 0;
                d
            },
        }
    }

    /// One keystroke while a server input prompt is pending.
    fn handle_input_response(&mut self, key: Key) -> (d: Dispatch)
        requires
            old(self).wf(),
            old(self).input_mode is Normal,
            old(self).accept_response_input,
        ensures
            final(self).wf(),
            response_effect(*old(self), *final(self), key, d),
    {
        match key {
            Key::Char(c) => {
                self.response_input.push(c);
                Dispatch::Continue
            },
            Key::Backspace => {
                let _ = self.response_input.pop();
                Dispatch::Continue
            },
            Key::Enter => {
                let mut nu = strip_query(self.url.as_str());
                nu.append("?");
                proof {
                    reveal_strlit("?");
                    assert("?"@ =~= seq!['?']);
                }
                nu.append(self.response_input.as_str());
                proof {
                    lemma_base_of_wf(self.url@);
                    lemma_append_keeps_wf(
                        base_of(self.url@),
                        seq!['?'] + self.response_input@,
                    );
                    assert(nu@ =~= base_of(self.url@) + (seq!['?'] + self.response_input@));
                }
                let ok = self.start_request(nu);
                proof {
                    assert(ok);
                }
                self.response_input = String::new();
                self.response_input_text = String::new();
                self.accept_response_input = false;
                proof {
                    assert(final(self).request_url@ =~= base_of(old(self).url@) + seq!['?']
                        + old(self).response_input@);
                }
                Dispatch::Navigate
            },
            Key::Esc => {
                self.response_input = String::new();
                self.response_input_text = String::new();
                self.accept_response_input = false;
                if self.go_back() {
                    Dispatch::Navigate
                } else {
                    Dispatch::Continue
                }
            },
            _ => Dispatch::Continue,
        }
    }
}

/// Dispatch one keystroke by the session's mode.
pub fn handle_key_strokes(app: &mut App, key: Key) -> (d: Dispatch)
    requires
        old(app).wf(),
    ensures
        final(app).wf(),
        old(app).input_mode is Editing ==> editing_effect(*old(app), *final(app), key, d),
        old(app).input_mode is Normal && old(app).accept_response_input ==> response_effect(
            *old(app),
            *final(app),
            key,
            d,
        ),
        old(app).input_mode is Normal && !old(app).accept_response_input ==> normal_effect(
            *old(app),
            *final(app),
            key,
            d,
        ),
{
    match app.input_mode {
        Mode::Normal => {
            if app.accept_response_input {
                app.handle_input_response(key)
            } else {
                app.handle_normal_input(key)
            }
        },
        Mode::Editing => app.handle_editing_input(key),
    }
}

} // verus!
