//! The document model adapter: one response body becomes an ordered
//! sequence of display rows, each a few styled text spans tagged with an
//! optional link target and a preformatted flag.
//!
//! The walk keeps one piece of state, the preformat toggle, flipped by
//! every fence line.  Link lines win over everything; fence lines become
//! an empty preformatted row; lines inside a preformatted block are kept
//! verbatim; the rest are styled by their first character.  Plain text
//! is wrapped into chunks of at most the wrap width, counted in
//! characters so that no character is ever split.

use vstd::prelude::*;

use crate::text::{
    find_non_space, find_stop, lines_of, replace_tabs, scan_spaces, scan_until, split_lines,
    starts_with_seq, str_starts_with, untabbed,
};

verus! {

/// How a span of text is to be drawn.
#[derive(Clone, Copy, PartialEq, Eq, Structural, Debug)]
pub enum TextStyle {
    Plain,
    Accent,
    Bold,
    BoldUnderlined,
    BoldItalic,
    Italic,
    Underlined,
}

#[derive(Debug)]
pub struct StyledSpan {
    pub text: String,
    pub style: TextStyle,
}

#[derive(Debug)]
pub struct DisplayRow {
    pub spans: Vec<StyledSpan>,
    pub link: Option<String>,
    pub pre: bool,
}

/// The mathematical shadow of a styled span.
#[verifier::ext_equal]
pub struct SpanModel {
    pub text: Seq<char>,
    pub style: TextStyle,
}

/// The mathematical shadow of a display row.
#[verifier::ext_equal]
pub struct RowModel {
    pub spans: Seq<SpanModel>,
    pub link: Option<Seq<char>>,
    pub pre: bool,
}

impl View for StyledSpan {
    type V = SpanModel;

    open spec fn view(&self) -> SpanModel {
        SpanModel { text: self.text@, style: self.style }
    }
}

impl View for DisplayRow {
    type V = RowModel;

    open spec fn view(&self) -> RowModel {
        RowModel {
            spans: self.spans@.map_values(|sp: StyledSpan| sp@),
            link: match self.link {
                Some(l) => Some(l@),
                None => None,
            },
            pre: self.pre,
        }
    }
}

/// The rows of a row vector, as models.
pub open spec fn rows_model(rows: Seq<DisplayRow>) -> Seq<RowModel> {
    rows.map_values(|r: DisplayRow| r@)
}

pub open spec fn span_model(t: Seq<char>, style: TextStyle) -> SpanModel {
    SpanModel { text: t, style }
}

// ---- line classification ----

/// A fence line opens or closes a preformatted block.
pub open spec fn is_fence(l: Seq<char>) -> bool {
    starts_with_seq(l, seq!['`', '`', '`'])
}

/// Start of the line's first token.
pub open spec fn tok1_start(l: Seq<char>) -> int {
    scan_spaces(l, 0)
}

/// End of the line's first token.
pub open spec fn tok1_end(l: Seq<char>) -> int {
    scan_until(l, tok1_start(l), ' ', ' ')
}

/// Start of the line's second token.
pub open spec fn tok2_start(l: Seq<char>) -> int {
    scan_spaces(l, tok1_end(l))
}

/// End of the line's second token.
pub open spec fn tok2_end(l: Seq<char>) -> int {
    scan_until(l, tok2_start(l), ' ', ' ')
}

/// A link line: the first token is the link marker "=>" and a second
/// token, the target, follows.
pub open spec fn is_link_line(l: Seq<char>) -> bool {
    &&& tok1_start(l) < l.len()
    &&& tok1_end(l) - tok1_start(l) == 2
    &&& l[tok1_start(l)] == '='
    &&& l[tok1_start(l) + 1] == '>'
    &&& tok2_start(l) < l.len()
}

/// The link target: the second token.
pub open spec fn link_target(l: Seq<char>) -> Seq<char> {
    l.subrange(tok2_start(l), tok2_end(l))
}

/// The link label: everything after the target, spaces skipped; the
/// target itself stands in for a missing label.
pub open spec fn link_label(l: Seq<char>) -> Seq<char> {
    let rest = l.skip(scan_spaces(l, tok2_end(l)));
    if rest.len() == 0 {
        link_target(l)
    } else {
        rest
    }
}

/// Heading depth, one to three '#' characters.
pub open spec fn heading_level(l: Seq<char>) -> int {
    if starts_with_seq(l, seq!['#', '#', '#']) {
        3
    } else if starts_with_seq(l, seq!['#', '#']) {
        2
    } else {
        1
    }
}

/// Heading text: what follows the marker and its spaces.
pub open spec fn heading_text(l: Seq<char>) -> Seq<char> {
    l.skip(scan_spaces(l, heading_level(l)))
}

pub open spec fn heading_glyph(level: int) -> Seq<char> {
    if level == 1 {
        "  # "@
    } else if level == 2 {
        " ## "@
    } else {
        "### "@
    }
}

pub open spec fn heading_style(level: int) -> TextStyle {
    if level == 1 {
        TextStyle::BoldUnderlined
    } else if level == 2 {
        TextStyle::Bold
    } else {
        TextStyle::BoldItalic
    }
}

/// A list item line: "* " and the item.
pub open spec fn is_list_line(l: Seq<char>) -> bool {
    l.len() >= 2 && l[0] == '*' && l[1] == ' '
}

/// A line of nothing but spaces.
pub open spec fn is_blank(l: Seq<char>) -> bool {
    forall|i: int| 0 <= i < l.len() ==> l[i] == ' '
}

// ---- row shapes ----

pub open spec fn link_row(l: Seq<char>) -> RowModel {
    RowModel {
        spans: seq![
            span_model(" => "@, TextStyle::Accent),
            span_model(link_label(l), TextStyle::Underlined),
            span_model(" "@, TextStyle::Plain),
            span_model(link_target(l), TextStyle::Accent),
        ],
        link: Some(link_target(l)),
        pre: false,
    }
}

pub open spec fn fence_row() -> RowModel {
    RowModel {
        spans: seq![span_model(Seq::empty(), TextStyle::Plain)],
        link: None,
        pre: true,
    }
}

pub open spec fn pre_row(l: Seq<char>) -> RowModel {
    RowModel { spans: seq![span_model(l, TextStyle::Plain)], link: None, pre: true }
}

pub open spec fn heading_row(l: Seq<char>) -> RowModel {
    RowModel {
        spans: seq![
            span_model(heading_glyph(heading_level(l)), TextStyle::Accent),
            span_model(heading_text(l), heading_style(heading_level(l))),
        ],
        link: None,
        pre: false,
    }
}

pub open spec fn quote_row(l: Seq<char>) -> RowModel {
    RowModel {
        spans: seq![
            span_model("  > "@, TextStyle::Accent),
            span_model(l.skip(scan_spaces(l, 1)), TextStyle::Italic),
        ],
        link: None,
        pre: false,
    }
}

pub open spec fn list_row(l: Seq<char>) -> RowModel {
    RowModel {
        spans: seq![
            span_model("  * "@, TextStyle::Accent),
            span_model(l.skip(2), TextStyle::Plain),
        ],
        link: None,
        pre: false,
    }
}

pub open spec fn blank_row() -> RowModel {
    RowModel {
        spans: seq![span_model(Seq::empty(), TextStyle::Plain)],
        link: None,
        pre: false,
    }
}

pub open spec fn text_row(chunk: Seq<char>) -> RowModel {
    RowModel {
        spans: seq![span_model("    "@ + chunk, TextStyle::Plain)],
        link: None,
        pre: false,
    }
}

// ---- wrapping ----

/// The wrap width actually used: at least one character per row.
pub open spec fn eff_width(w: nat) -> nat {
    if w == 0 {
        1
    } else {
        w
    }
}

/// `s` cut into successive chunks of at most `w` characters.
pub open spec fn chunks_of(s: Seq<char>, w: nat) -> Seq<Seq<char>>
    decreases s.len() when w >= 1
{
    if s.len() <= w {
        seq![s]
    } else {
        seq![s.take(w as int)] + chunks_of(s.skip(w as int), w)
    }
}

/// Every chunk fits the width, and together they are the line.
pub proof fn lemma_chunks_of(s: Seq<char>, w: nat)
    requires
        w >= 1,
    ensures
        chunks_of(s, w).len() >= 1,
        forall|i: int| 0 <= i < chunks_of(s, w).len() ==> (#[trigger] chunks_of(s, w)[i]).len()
            <= w,
        chunks_of(s, w).flatten() == s,
    decreases s.len(),
{
    let cs = chunks_of(s, w);
    if s.len() <= w {
        assert(cs == seq![s]);
        assert(cs.drop_first() =~= Seq::<Seq<char>>::empty());
        assert(cs.drop_first().flatten() == Seq::<char>::empty());
        assert(cs.flatten() == cs.first() + cs.drop_first().flatten());
        assert(cs.flatten() =~= s);
    } else {
        lemma_chunks_of(s.skip(w as int), w);
        assert(cs.first() == s.take(w as int));
        assert(cs.drop_first() =~= chunks_of(s.skip(w as int), w));
        assert(cs.flatten() == cs.first() + cs.drop_first().flatten());
        assert(cs.flatten() =~= s);
    }
}

/// The rows of one plain text line.
pub open spec fn text_rows(l: Seq<char>, w: nat) -> Seq<RowModel> {
    chunks_of(l, eff_width(w)).map_values(|ch: Seq<char>| text_row(ch))
}

// ---- one line to rows ----

/// The preformat toggle after a line.
pub open spec fn line_toggle(l: Seq<char>, pre: bool) -> bool {
    if is_fence(l) {
        !pre
    } else {
        pre
    }
}

/// The rows of one cleaned line, given the preformat state.
pub open spec fn line_rows(l: Seq<char>, pre: bool, w: nat) -> Seq<RowModel> {
    if is_link_line(l) {
        seq![link_row(l)]
    } else if is_fence(l) {
        seq![fence_row()]
    } else if pre {
        seq![pre_row(l)]
    } else if l.len() > 0 && l[0] == '#' {
        seq![heading_row(l)]
    } else if l.len() > 0 && l[0] == '>' {
        seq![quote_row(l)]
    } else if is_list_line(l) {
        seq![list_row(l)]
    } else if is_blank(l) {
        seq![blank_row()]
    } else {
        text_rows(l, w)
    }
}

// ---- the whole document ----

/// The rows of a sequence of raw lines: tabs are replaced by spaces,
/// then each line is classified under the running preformat toggle.
pub open spec fn doc_rows(lines: Seq<Seq<char>>, pre: bool, w: nat) -> Seq<RowModel>
    decreases lines.len(),
{
    if lines.len() == 0 {
        Seq::empty()
    } else {
        let l = untabbed(lines[0]);
        line_rows(l, pre, w) + doc_rows(lines.drop_first(), line_toggle(l, pre), w)
    }
}

/// The display rows of a whole response body.
pub open spec fn adapted(body: Seq<char>, w: nat) -> Seq<RowModel> {
    doc_rows(split_lines(body), false, w)
}

// ---- executable adapter ----

fn mk_span(text: String, style: TextStyle) -> (r: StyledSpan)
    ensures
        r@ == span_model(text@, style),
{
    StyledSpan { text, style }
}

/// Emit the rows of one plain text line, wrapped.
fn push_text_rows(l: &String, w: usize, rows: &mut Vec<DisplayRow>)
    ensures
        rows_model(final(rows)@) == rows_model(old(rows)@) + text_rows(l@, w as nat),
{
    let eff: usize = if w == 0 {
        1
    } else {
        w
    };
    let n = l.as_str().unicode_len();
    let ghost ew = eff_width(w as nat);
    let mut pos: usize = 0;
    proof {
        assert(l@.skip(0) =~= l@);
    }
    while n - pos > eff
        invariant
            0 <= pos <= n,
            n == l@.len(),
            eff == ew,
            eff >= 1,
            rows_model(rows@) + chunks_of(l@.skip(pos as int), ew).map_values(
                |ch: Seq<char>| text_row(ch),
            ) =~= rows_model(old(rows)@) + text_rows(l@, w as nat),
        decreases n - pos,
    {
        let piece = l.as_str().substring_char(pos, pos + eff);
        let mut t = String::from_str("    ");
        t.append(piece);
        let span = mk_span(t, TextStyle::Plain);
        let mut spans: Vec<StyledSpan> = Vec::new();
        spans.push(span);
        let row = DisplayRow { spans, link: None, pre: false };
        let ghost rest = l@.skip(pos as int);
        proof {
            assert(rest.take(ew as int) =~= l@.subrange(pos as int, pos + eff));
            assert(row@ =~= text_row(rest.take(ew as int)));
        }
        rows.push(row);
        pos = pos + eff;
        proof {
            assert(rest.skip(ew as int) =~= l@.skip(pos as int));
            assert(rows_model(rows@) =~= rows_model(rows@.drop_last()).push(rows@.last()@));
            assert(rows_model(rows@) + chunks_of(l@.skip(pos as int), ew).map_values(
                |ch: Seq<char>| text_row(ch),
            ) =~= rows_model(old(rows)@) + text_rows(l@, w as nat));
        }
    }
    let piece = l.as_str().substring_char(pos, n);
    let mut t = String::from_str("    ");
    t.append(piece);
    let span = mk_span(t, TextStyle::Plain);
    let mut spans: Vec<StyledSpan> = Vec::new();
    spans.push(span);
    let row = DisplayRow { spans, link: None, pre: false };
    let ghost rest = l@.skip(pos as int);
    proof {
        assert(rest =~= l@.subrange(pos as int, n as int));
        assert(row@ =~= text_row(rest));
        assert(chunks_of(rest, ew) =~= seq![rest]);
    }
    rows.push(row);
    proof {
        assert(rows_model(rows@) =~= rows_model(rows@.drop_last()).push(rows@.last()@));
        assert(rows_model(rows@) =~= rows_model(old(rows)@) + text_rows(l@, w as nat));
    }
}

/// Emit the rows of one cleaned line and report the next preformat
/// toggle state.
fn push_line_rows(l: &String, pre: bool, w: usize, rows: &mut Vec<DisplayRow>) -> (npre: bool)
    ensures
        rows_model(final(rows)@) == rows_model(old(rows)@) + line_rows(l@, pre, w as nat),
        npre == line_toggle(l@, pre),
{
    let n = l.as_str().unicode_len();
    let fence = str_starts_with(l.as_str(), "```");
    proof {
        reveal_strlit("```");
        assert("```"@ =~= seq!['`', '`', '`']);
    }
    let npre = if fence {
        !pre
    } else {
        pre
    };

    // link lines win over every other shape
    let t0 = find_non_space(l.as_str(), 0);
    let t1 = find_stop(l.as_str(), t0, ' ', ' ');
    if t0 < n && t1 - t0 == 2 {
        if l.as_str().get_char(t0) == '=' && l.as_str().get_char(t0 + 1) == '>' {
            let t2 = find_non_space(l.as_str(), t1);
            if t2 < n {
                let t3 = find_stop(l.as_str(), t2, ' ', ' ');
                let target = String::from_str(l.as_str().substring_char(t2, t3));
                let ls = find_non_space(l.as_str(), t3);
                let rest = l.as_str().substring_char(ls, n);
                let label = if rest.unicode_len() == 0 {
                    target.clone()
                } else {
                    String::from_str(rest)
                };
                let mut spans: Vec<StyledSpan> = Vec::new();
                spans.push(mk_span(String::from_str(" => "), TextStyle::Accent));
                spans.push(mk_span(label, TextStyle::Underlined));
                spans.push(mk_span(String::from_str(" "), TextStyle::Plain));
                spans.push(mk_span(target.clone(), TextStyle::Accent));
                let row = DisplayRow { spans, link: Some(target), pre: false };
                proof {
                    assert(target@ =~= link_target(l@));
                    assert(rest@ =~= l@.skip(scan_spaces(l@, tok2_end(l@))));
                    assert(row@ =~= link_row(l@));
                    assert(is_link_line(l@));
                }
                rows.push(row);
                proof {
                    lemma_rows_push(old(rows)@, rows@, line_rows(l@, pre, w as nat));
                }
                return npre;
            }
        }
    }
    proof {
        assert(!is_link_line(l@));
    }

    if fence {
        let mut spans: Vec<StyledSpan> = Vec::new();
        spans.push(mk_span(String::new(), TextStyle::Plain));
        let row = DisplayRow { spans, link: None, pre: true };
        proof {
            assert(row@ =~= fence_row());
        }
        rows.push(row);
        proof {
            lemma_rows_push(old(rows)@, rows@, line_rows(l@, pre, w as nat));
        }
        return npre;
    }

    if pre {
        let mut spans: Vec<StyledSpan> = Vec::new();
        spans.push(mk_span(l.clone(), TextStyle::Plain));
        let row = DisplayRow { spans, link: None, pre: true };
        proof {
            assert(row@ =~= pre_row(l@));
        }
        rows.push(row);
        proof {
            lemma_rows_push(old(rows)@, rows@, line_rows(l@, pre, w as nat));
        }
        return npre;
    }

    if n > 0 && l.as_str().get_char(0) == '#' {
        let level: usize = if str_starts_with(l.as_str(), "###") {
            3
        } else if str_starts_with(l.as_str(), "##") {
            2
        } else {
            1
        };
        proof {
            reveal_strlit("###");
            reveal_strlit("##");
            assert("###"@ =~= seq!['#', '#', '#']);
            assert("##"@ =~= seq!['#', '#']);
            assert(level == heading_level(l@));
        }
        let glyph = match level {
            1 => String::from_str("  # "),
            2 => String::from_str(" ## "),
            _ => String::from_str("### "),
        };
        let style = match level {
            1 => TextStyle::BoldUnderlined,
            2 => TextStyle::Bold,
            _ => TextStyle::BoldItalic,
        };
        let ts = find_non_space(l.as_str(), level);
        let txt = String::from_str(l.as_str().substring_char(ts, n));
        let mut spans: Vec<StyledSpan> = Vec::new();
        spans.push(mk_span(glyph, TextStyle::Accent));
        spans.push(mk_span(txt, style));
        let row = DisplayRow { spans, link: None, pre: false };
        proof {
            assert(l@.subrange(ts as int, n as int) =~= heading_text(l@));
            assert(row@ =~= heading_row(l@));
        }
        rows.push(row);
        proof {
            lemma_rows_push(old(rows)@, rows@, line_rows(l@, pre, w as nat));
        }
        return npre;
    }

    if n > 0 && l.as_str().get_char(0) == '>' {
        let ts = find_non_space(l.as_str(), 1);
        let txt = String::from_str(l.as_str().substring_char(ts, n));
        let mut spans: Vec<StyledSpan> = Vec::new();
        spans.push(mk_span(String::from_str("  > "), TextStyle::Accent));
        spans.push(mk_span(txt, TextStyle::Italic));
        let row = DisplayRow { spans, link: None, pre: false };
        proof {
            assert(l@.subrange(ts as int, n as int) =~= l@.skip(scan_spaces(l@, 1)));
            assert(row@ =~= quote_row(l@));
        }
        rows.push(row);
        proof {
            lemma_rows_push(old(rows)@, rows@, line_rows(l@, pre, w as nat));
        }
        return npre;
    }

    if n >= 2 && l.as_str().get_char(0) == '*' && l.as_str().get_char(1) == ' ' {
        let txt = String::from_str(l.as_str().substring_char(2, n));
        let mut spans: Vec<StyledSpan> = Vec::new();
        spans.push(mk_span(String::from_str("  * "), TextStyle::Accent));
        spans.push(mk_span(txt, TextStyle::Plain));
        let row = DisplayRow { spans, link: None, pre: false };
        proof {
            assert(l@.subrange(2, n as int) =~= l@.skip(2));
            assert(row@ =~= list_row(l@));
        }
        rows.push(row);
        proof {
            lemma_rows_push(old(rows)@, rows@, line_rows(l@, pre, w as nat));
        }
        return npre;
    }

    let sp = find_non_space(l.as_str(), 0);
    if sp >= n {
        let mut spans: Vec<StyledSpan> = Vec::new();
        spans.push(mk_span(String::new(), TextStyle::Plain));
        let row = DisplayRow { spans, link: None, pre: false };
        proof {
            assert(is_blank(l@));
            assert(row@ =~= blank_row());
        }
        rows.push(row);
        proof {
            lemma_rows_push(old(rows)@, rows@, line_rows(l@, pre, w as nat));
        }
        return npre;
    }
    proof {
        assert(!is_blank(l@));
    }
    push_text_rows(l, w, rows);
    npre
}

/// Pushing one row extends the model by that row's model.
proof fn lemma_rows_push(before: Seq<DisplayRow>, after: Seq<DisplayRow>, want: Seq<RowModel>)
    requires
        after == before.push(after.last()),
        want.len() == 1,
        after.last()@ == want[0],
    ensures
        rows_model(after) == rows_model(before) + want,
{
    assert(rows_model(after) =~= rows_model(before) + want);
}

/// Turn one response body into display rows.
pub fn adapt(body: &str, wrap_at: usize) -> (rows: Vec<DisplayRow>)
    ensures
        rows_model(rows@) == adapted(body@, wrap_at as nat),
{
    let lines = lines_of(body);
    let mut rows: Vec<DisplayRow> = Vec::new();
    let mut pre = false;
    let mut i: usize = 0;
    let ghost all = split_lines(body@);
    proof {
        assert(all.skip(0) =~= all);
        assert(rows_model(rows@) =~= Seq::<RowModel>::empty());
    }
    while i < lines.len()
        invariant
            0 <= i <= lines.len(),
            lines.deep_view() == all,
            rows_model(rows@) + doc_rows(all.skip(i as int), pre, wrap_at as nat) =~= doc_rows(
                all,
                false,
                wrap_at as nat,
            ),
        decreases lines.len() - i,
    {
        let cleaned = replace_tabs(lines[i].as_str());
        let ghost rest = all.skip(i as int);
        proof {
            assert(rest[0] == lines[i as int]@);
            assert(cleaned@ == untabbed(rest[0]));
        }
        pre = push_line_rows(&cleaned, pre, wrap_at, &mut rows);
        i = i + 1;
        proof {
            assert(rest.drop_first() =~= all.skip(i as int));
        }
    }
    proof {
        assert(all.skip(i as int) =~= Seq::<Seq<char>>::empty());
        assert(rows_model(rows@) =~= doc_rows(all, false, wrap_at as nat));
    }
    rows
}

} // verus!
