use sydney::input::{handle_key_strokes, Dispatch, Key, Mode};
use sydney::nav::{NavStep, ResponseOutcome};
use sydney::session::App;

fn success(body: &str) -> ResponseOutcome {
    ResponseOutcome::Success { body: String::from(body), meta: String::from("text/gemini") }
}

fn visit(app: &mut App, url: &str, body: &str) {
    assert!(app.start_request(String::from(url)));
    let step = app.apply_response(success(body));
    assert!(matches!(step, NavStep::Done));
}

fn type_line(app: &mut App, line: &str) {
    for c in line.chars() {
        handle_key_strokes(app, Key::Char(c));
    }
}

#[test]
fn back_then_forward_returns_to_the_page_left() {
    let mut app = App::new();
    visit(&mut app, "gemini://a.example/one", "one");
    visit(&mut app, "gemini://b.example/two", "two");
    assert_eq!(app.url, "gemini://b.example/two");

    assert!(app.go_back());
    assert_eq!(app.request_url, "gemini://a.example/one");
    app.apply_response(success("one"));
    assert_eq!(app.url, "gemini://a.example/one");
    assert_eq!(app.previous_capsule.as_deref(), Some("gemini://b.example/two"));

    assert!(app.go_forward());
    assert_eq!(app.request_url, "gemini://b.example/two");
    assert!(app.previous_capsule.is_none());
    app.apply_response(success("two"));
    assert_eq!(app.url, "gemini://b.example/two");
}

#[test]
fn forward_slot_is_single_level() {
    let mut app = App::new();
    visit(&mut app, "gemini://a.example/1", "a");
    visit(&mut app, "gemini://b.example/2", "b");
    visit(&mut app, "gemini://c.example/3", "c");

    assert!(app.go_back());
    app.apply_response(success("b"));
    assert_eq!(app.url, "gemini://b.example/2");

    assert!(app.go_back());
    app.apply_response(success("a"));
    assert_eq!(app.url, "gemini://a.example/1");

    // the slot recalls only the page the last back press left
    assert!(app.go_forward());
    app.apply_response(success("b"));
    assert_eq!(app.url, "gemini://b.example/2");
    assert_ne!(app.url, "gemini://c.example/3");
}

#[test]
fn back_on_empty_history_does_nothing() {
    let mut app = App::new();
    let before = app.url.clone();
    assert!(!app.go_back());
    assert_eq!(app.url, before);
}

#[test]
fn self_link_never_duplicates_history_top() {
    let mut app = App::new();
    visit(&mut app, "gemini://h.example/self", "first");
    assert_eq!(app.capsule_history.len(), 1);
    visit(&mut app, "gemini://h.example/self", "second");
    assert_eq!(app.capsule_history.len(), 1);
    assert_eq!(app.capsule_history[0], "gemini://h.example/self");
}

#[test]
fn redirect_is_followed_once_and_history_holds_the_final_url() {
    let mut app = App::new();
    assert!(app.start_request(String::from("gemini://host/old")));
    let step = app.apply_response(ResponseOutcome::Redirect {
        permanent: false,
        target: String::from("/new"),
    });
    assert!(matches!(step, NavStep::Refetch));
    assert_eq!(app.request_url, "gemini://host/new");

    let step = app.apply_response(success("arrived"));
    assert!(matches!(step, NavStep::Done));
    assert_eq!(app.url, "gemini://host/new");
    assert_eq!(app.capsule_history.len(), 1);
    assert_eq!(app.capsule_history[0], "gemini://host/new");
}

#[test]
fn a_second_redirect_is_not_followed() {
    let mut app = App::new();
    assert!(app.start_request(String::from("gemini://host/a")));
    let step = app.apply_response(ResponseOutcome::Redirect {
        permanent: false,
        target: String::from("/b"),
    });
    assert!(matches!(step, NavStep::Refetch));
    let step = app.apply_response(ResponseOutcome::Redirect {
        permanent: false,
        target: String::from("/c"),
    });
    assert!(matches!(step, NavStep::Done));
    assert_eq!(app.error.as_deref(), Some("/c"));
}

#[test]
fn transport_error_keeps_url_and_rows() {
    let mut app = App::new();
    visit(&mut app, "gemini://ok.example/page", "hello");
    let rows_before = app.items.items.len();
    assert!(app.start_request(String::from("gemini://down.example/x")));
    let step = app.apply_response(ResponseOutcome::TransportError {
        message: String::from("connection refused"),
    });
    assert!(matches!(step, NavStep::Done));
    assert_eq!(app.url, "gemini://ok.example/page");
    assert_eq!(app.items.items.len(), rows_before);
    assert_eq!(app.error.as_deref(), Some("connection refused"));
}

#[test]
fn protocol_failure_shows_a_single_error_row() {
    let mut app = App::new();
    assert!(app.start_request(String::from("gemini://h.example/missing")));
    app.apply_response(ResponseOutcome::Failure { meta: String::from("51 not found") });
    assert_eq!(app.error.as_deref(), Some("51 not found"));
    assert_eq!(app.items.items.len(), 1);
    assert_eq!(app.items.items[0].spans[0].text, "51 not found");
    assert_eq!(app.url, "gemini://h.example/missing");
    assert_eq!(app.capsule_history.len(), 1);
}

#[test]
fn malformed_target_is_refused_with_an_error() {
    let mut app = App::new();
    let before = app.request_url.clone();
    assert!(!app.start_request(String::from("gemini://")));
    assert_eq!(app.request_url, before);
    assert_eq!(app.error.as_deref(), Some("Invalid URL: gemini://"));
}

#[test]
fn wrap_command_sets_width_and_renavigates() {
    let mut app = App::new();
    visit(&mut app, "gemini://h.example/doc", "short");
    let d = handle_key_strokes(&mut app, Key::Char(':'));
    assert_eq!(d, Dispatch::Continue);
    assert_eq!(app.input_mode, Mode::Editing);
    type_line(&mut app, "wrap 40");
    assert_eq!(app.input, "wrap 40");
    let d = handle_key_strokes(&mut app, Key::Enter);
    assert_eq!(d, Dispatch::Navigate);
    assert_eq!(app.wrap_at, 40);
    assert_eq!(app.input_mode, Mode::Normal);
    assert_eq!(app.request_url, "gemini://h.example/doc");
    // the caller performs the re-fetch with the new width
    app.apply_response(success(&"z".repeat(100)));
    assert_eq!(app.items.items.len(), 3);
}

#[test]
fn wrap_command_with_bad_argument_keeps_prior_width() {
    let mut app = App::new();
    assert_eq!(app.wrap_at, 80);
    handle_key_strokes(&mut app, Key::Char(':'));
    type_line(&mut app, "wrap forty");
    let d = handle_key_strokes(&mut app, Key::Enter);
    assert_eq!(d, Dispatch::Continue);
    assert_eq!(app.wrap_at, 80);
    assert_eq!(app.error.as_deref(), Some("invalid digit found in string"));

    // a width set earlier also survives a later bad argument
    handle_key_strokes(&mut app, Key::Char(':'));
    type_line(&mut app, "wrap 33");
    handle_key_strokes(&mut app, Key::Enter);
    assert_eq!(app.wrap_at, 33);
    handle_key_strokes(&mut app, Key::Char(':'));
    type_line(&mut app, "wrap x");
    handle_key_strokes(&mut app, Key::Enter);
    assert_eq!(app.wrap_at, 33);
}

#[test]
fn server_input_prompt_builds_query_from_stripped_base() {
    let mut app = App::new();
    assert!(app.start_request(String::from("gemini://host/search?stale")));
    let step = app.apply_response(ResponseOutcome::InputRequired {
        sensitive: false,
        prompt: String::from("Enter query"),
    });
    assert!(matches!(step, NavStep::Done));
    assert!(app.accept_response_input);
    assert_eq!(app.response_input_text, "Enter query");
    assert_eq!(app.url, "gemini://host/search?stale");

    type_line(&mut app, "hellox");
    handle_key_strokes(&mut app, Key::Backspace);
    assert_eq!(app.response_input, "hello");
    let d = handle_key_strokes(&mut app, Key::Enter);
    assert_eq!(d, Dispatch::Navigate);
    assert_eq!(app.request_url, "gemini://host/search?hello");
    assert!(!app.accept_response_input);
    assert_eq!(app.response_input, "");
    assert_eq!(app.response_input_text, "");
}

#[test]
fn server_input_prompt_keeps_previous_rows() {
    let mut app = App::new();
    visit(&mut app, "gemini://h.example/menu", "# Menu\n=> /search Search");
    let rows_before = app.items.items.len();
    assert!(app.start_request(String::from("gemini://h.example/search")));
    app.apply_response(ResponseOutcome::InputRequired {
        sensitive: false,
        prompt: String::from("Say it"),
    });
    assert_eq!(app.items.items.len(), rows_before);
    // history gains nothing until the answer settles
    assert_eq!(app.capsule_history.len(), 1);
}

#[test]
fn escape_leaves_the_prompt_and_goes_back() {
    let mut app = App::new();
    visit(&mut app, "gemini://h.example/menu", "menu");
    assert!(app.start_request(String::from("gemini://h.example/ask")));
    app.apply_response(ResponseOutcome::InputRequired {
        sensitive: false,
        prompt: String::from("?"),
    });
    type_line(&mut app, "half an ans");
    let d = handle_key_strokes(&mut app, Key::Esc);
    assert!(!app.accept_response_input);
    assert_eq!(app.response_input, "");
    assert_eq!(d, Dispatch::Navigate);
    assert_eq!(app.request_url, "gemini://h.example/menu");
}

#[test]
fn open_command_completes_bare_hosts() {
    let mut app = App::new();
    handle_key_strokes(&mut app, Key::Char(':'));
    type_line(&mut app, "open example.org");
    let d = handle_key_strokes(&mut app, Key::Enter);
    assert_eq!(d, Dispatch::Navigate);
    assert_eq!(app.request_url, "gemini://example.org");
}

#[test]
fn open_command_without_target_is_an_error() {
    let mut app = App::new();
    handle_key_strokes(&mut app, Key::Char(':'));
    type_line(&mut app, "open");
    let d = handle_key_strokes(&mut app, Key::Enter);
    assert_eq!(d, Dispatch::Continue);
    assert_eq!(app.error.as_deref(), Some("No URL provided for open command"));
    assert_eq!(app.input_mode, Mode::Normal);
}

#[test]
fn unknown_command_names_itself_in_the_error() {
    let mut app = App::new();
    handle_key_strokes(&mut app, Key::Char(':'));
    type_line(&mut app, "frobnicate");
    handle_key_strokes(&mut app, Key::Enter);
    assert_eq!(
        app.error.as_deref(),
        Some("\"frobnicate\" is not a valid command")
    );
}

#[test]
fn backspace_clears_the_error_in_navigation_mode() {
    let mut app = App::new();
    assert!(!app.start_request(String::from("nonsense")));
    assert!(app.error.is_some());
    let d = handle_key_strokes(&mut app, Key::Backspace);
    assert_eq!(d, Dispatch::Continue);
    assert!(app.error.is_none());
}

#[test]
fn quit_command_ends_the_session() {
    let mut app = App::new();
    handle_key_strokes(&mut app, Key::Char(':'));
    type_line(&mut app, "q");
    let d = handle_key_strokes(&mut app, Key::Enter);
    assert_eq!(d, Dispatch::Quit);
}

#[test]
fn command_history_replays_newest_first() {
    let mut app = App::new();
    handle_key_strokes(&mut app, Key::Char(':'));
    type_line(&mut app, "wrap 50");
    handle_key_strokes(&mut app, Key::Enter);
    handle_key_strokes(&mut app, Key::Char(':'));
    type_line(&mut app, "wrap 60");
    handle_key_strokes(&mut app, Key::Enter);
    assert_eq!(app.command_history, vec!["wrap 60", "wrap 50"]);

    handle_key_strokes(&mut app, Key::Char(':'));
    handle_key_strokes(&mut app, Key::Up);
    assert_eq!(app.input, "wrap 60");
    handle_key_strokes(&mut app, Key::Up);
    assert_eq!(app.input, "wrap 50");
    handle_key_strokes(&mut app, Key::Down);
    assert_eq!(app.input, "wrap 60");
    handle_key_strokes(&mut app, Key::Down);
    assert_eq!(app.input, "");
}

#[test]
fn editing_backspace_and_escape() {
    let mut app = App::new();
    handle_key_strokes(&mut app, Key::Char(':'));
    type_line(&mut app, "qx");
    handle_key_strokes(&mut app, Key::Backspace);
    assert_eq!(app.input, "q");
    handle_key_strokes(&mut app, Key::Esc);
    assert_eq!(app.input, "");
    assert_eq!(app.input_mode, Mode::Normal);
}

#[test]
fn enter_follows_the_selected_link() {
    let mut app = App::new();
    visit(
        &mut app,
        "gemini://h.example/menu",
        "=> /one One\n=> two.gmi Two",
    );
    // the first row is acted on even before any highlight
    let d = handle_key_strokes(&mut app, Key::Enter);
    assert_eq!(d, Dispatch::Navigate);
    assert_eq!(app.request_url, "gemini://h.example/one");

    let d = handle_key_strokes(&mut app, Key::Char('j'));
    assert_eq!(d, Dispatch::Continue);
    let d = handle_key_strokes(&mut app, Key::Char('j'));
    assert_eq!(d, Dispatch::Continue);
    assert_eq!(app.items.selected, 1);
    let d = handle_key_strokes(&mut app, Key::Enter);
    assert_eq!(d, Dispatch::Navigate);
    assert_eq!(app.request_url, "gemini://h.example/menu/two.gmi");
}

#[test]
fn enter_ignores_foreign_scheme_links() {
    let mut app = App::new();
    visit(&mut app, "gemini://h.example/menu", "=> https://w.example Off");
    let d = handle_key_strokes(&mut app, Key::Enter);
    assert_eq!(d, Dispatch::Continue);
    assert!(app.error.is_none());
    assert_eq!(app.url, "gemini://h.example/menu");
}

#[test]
fn gg_chord_selects_the_first_row() {
    let mut app = App::new();
    visit(&mut app, "gemini://h.example/doc", "a\nb\nc");
    handle_key_strokes(&mut app, Key::Char('G'));
    assert_eq!(app.items.selected, 2);
    handle_key_strokes(&mut app, Key::Char('g'));
    assert_eq!(app.items.selected, 2);
    handle_key_strokes(&mut app, Key::Char('g'));
    assert_eq!(app.items.selected, 0);
}

#[test]
fn chord_is_cleared_by_any_other_key() {
    let mut app = App::new();
    visit(&mut app, "gemini://h.example/doc", "a\nb\nc");
    handle_key_strokes(&mut app, Key::Char('G'));
    handle_key_strokes(&mut app, Key::Char('g'));
    handle_key_strokes(&mut app, Key::Other);
    handle_key_strokes(&mut app, Key::Char('g'));
    // the half-typed chord did not survive the stray key
    assert_eq!(app.items.selected, 2);
}
