//! The command parser: a typed line becomes one of a closed set of
//! commands.
//!
//! The line is split at the first space; the first token picks the verb
//! and the second, when present, is its argument.

use vstd::prelude::*;

use crate::text::{find_stop, lemma_scan_skip, scan_until, str_eq};

verus! {

pub enum Command {
    Quit,
    Open(Option<String>),
    Unknown,
    Wrap(usize, Option<String>),
}

/// The wrap width used when a `wrap` command carries no usable width.
pub const DEFAULT_WRAP_WIDTH: usize = 80;

/// `c` is a decimal digit.
pub open spec fn is_digit(c: char) -> bool {
    48 <= c as u32 <= 57
}

/// The value of a decimal digit.
pub open spec fn digit_val(c: char) -> int {
    c as u32 - 48
}

/// Every character of `s` is a decimal digit.
pub open spec fn all_digits(s: Seq<char>) -> bool {
    forall|i: int| 0 <= i < s.len() ==> is_digit(#[trigger] s[i])
}

/// The value of `s` read as a decimal numeral.
pub open spec fn dec_val(s: Seq<char>) -> int
    decreases s.len(),
{
    if s.len() == 0 {
        0
    } else {
        dec_val(s.drop_last()) * 10 + digit_val(s.last())
    }
}

/// The digits of a numeral: an optional single leading '+' is allowed.
pub open spec fn num_body(s: Seq<char>) -> Seq<char> {
    if s.len() > 0 && s[0] == '+' {
        s.skip(1)
    } else {
        s
    }
}

/// A numeral a machine word can hold: a non-empty digit string, below
/// the type's limit, after the optional sign.
pub open spec fn valid_usize_numeral(s: Seq<char>) -> bool {
    &&& num_body(s).len() > 0
    &&& all_digits(num_body(s))
    &&& dec_val(num_body(s)) <= usize::MAX
}

proof fn lemma_dec_val_nonneg(s: Seq<char>)
    requires
        all_digits(s),
    ensures
        dec_val(s) >= 0,
    decreases s.len(),
{
    if s.len() > 0 {
        assert(all_digits(s.drop_last())) by {
            assert(forall|i: int| 0 <= i < s.len() - 1 ==> is_digit(#[trigger] s[i]));
        }
        lemma_dec_val_nonneg(s.drop_last());
    }
}

/// A longer digit prefix never has a smaller value.
proof fn lemma_dec_val_monotone(s: Seq<char>, i: int)
    requires
        all_digits(s),
        0 <= i <= s.len(),
    ensures
        dec_val(s.take(i)) <= dec_val(s),
    decreases s.len() - i,
{
    if i < s.len() {
        lemma_dec_val_monotone(s, i + 1);
        let p = s.take(i + 1);
        assert(p.drop_last() =~= s.take(i));
        assert(all_digits(s.take(i))) by {
            assert(forall|k: int| 0 <= k < i ==> is_digit(#[trigger] s[k]));
        }
        lemma_dec_val_nonneg(s.take(i));
        assert(dec_val(p) == dec_val(s.take(i)) * 10 + digit_val(p.last()));
    } else {
        assert(s.take(i) =~= s);
    }
}

/// Why a numeral fails to parse.
#[derive(PartialEq, Eq, Structural, Clone, Copy, Debug)]
pub enum NumeralError {
    Empty,
    InvalidDigit,
    TooLarge,
}

/// Parse a decimal numeral (optional leading '+') into a machine word.
pub fn parse_usize(s: &str) -> (r: Result<usize, NumeralError>)
    ensures
        valid_usize_numeral(s@) <==> r is Ok,
        r matches Ok(v) ==> v == dec_val(num_body(s@)),
        r matches Err(e) ==> match e {
            NumeralError::Empty => num_body(s@).len() == 0,
            NumeralError::InvalidDigit => num_body(s@).len() > 0 && !all_digits(num_body(s@)),
            NumeralError::TooLarge => num_body(s@).len() > 0 && all_digits(num_body(s@))
                && dec_val(num_body(s@)) > usize::MAX,
        },
{
    let n = s.unicode_len();
    let start: usize = if n > 0 && s.get_char(0) == '+' {
        1
    } else {
        0
    };
    let ghost body = num_body(s@);
    proof {
        assert(body =~= s@.skip(start as int));
    }
    if start >= n {
        return Err(NumeralError::Empty);
    }
    let mut i = start;
    while i < n
        invariant
            start <= i <= n,
            n == s@.len(),
            body == s@.skip(start as int),
            body == num_body(s@),
            forall|j: int| 0 <= j < i - start ==> is_digit(#[trigger] body[j]),
        decreases n - i,
    {
        let c = s.get_char(i);
        let cv = c as u32;
        if cv < 48 || cv > 57 {
            proof {
                assert(body[i - start] == s@[i as int]);
                assert(!is_digit(body[i - start]));
                assert(!all_digits(body));
                assert(body.len() == n - start > 0);
            }
            return Err(NumeralError::InvalidDigit);
        }
        proof {
            assert(s@[i as int] == body[i - start]);
        }
        i = i + 1;
    }
    proof {
        assert(all_digits(body));
    }
    let mut acc: usize = 0;
    let mut i = start;
    while i < n
        invariant
            start <= i <= n,
            n == s@.len(),
            body == s@.skip(start as int),
            body == num_body(s@),
            all_digits(body),
            acc == dec_val(body.take(i - start)),
        decreases n - i,
    {
        let c = s.get_char(i);
        proof {
            assert(s@[i as int] == body[i - start]);
            assert(is_digit(s@[i as int]));
        }
        let d: usize = (c as u32 - 48) as usize;
        let ghost pre = body.take(i - start);
        let ghost ext = body.take(i + 1 - start);
        proof {
            assert(d == digit_val(s@[i as int]));
            assert(ext.drop_last() =~= pre);
            assert(ext.last() == body[i - start] == s@[i as int]);
            assert(dec_val(ext) == dec_val(pre) * 10 + digit_val(s@[i as int]));
            lemma_dec_val_nonneg(pre);
        }
        let m = match acc.checked_mul(10) {
            Some(m) => m,
            None => {
                proof {
                    assert(dec_val(ext) > usize::MAX);
                    lemma_dec_val_monotone(body, i + 1 - start);
                    assert(dec_val(body) > usize::MAX);
                    assert(body.len() > 0);
                }
                return Err(NumeralError::TooLarge);
            },
        };
        acc = match m.checked_add(d) {
            Some(a) => a,
            None => {
                proof {
                    assert(dec_val(ext) > usize::MAX);
                    lemma_dec_val_monotone(body, i + 1 - start);
                    assert(dec_val(body) > usize::MAX);
                    assert(body.len() > 0);
                }
                return Err(NumeralError::TooLarge);
            },
        };
        i = i + 1;
    }
    proof {
        assert(body.take(n - start) =~= body);
    }
    Ok(acc)
}

/// Index of the first space of the line.
pub open spec fn first_space(s: Seq<char>) -> int {
    scan_until(s, 0, ' ', ' ')
}

/// The verb: the characters before the first space.
pub open spec fn verb_of(s: Seq<char>) -> Seq<char> {
    s.take(first_space(s))
}

/// The line carries an argument token (there is a first space).
pub open spec fn has_arg(s: Seq<char>) -> bool {
    first_space(s) < s.len()
}

/// The argument: the characters between the first space and the next
/// space or the end of the line.
pub open spec fn arg_of(s: Seq<char>) -> Seq<char> {
    let rest = s.skip(first_space(s) + 1);
    rest.take(scan_until(rest, 0, ' ', ' '))
}

/// What the parser owes for a line `s`: which command comes back, with
/// which argument or error.
pub open spec fn command_matches(s: Seq<char>, c: Command) -> bool {
    let v = verb_of(s);
    if v == "open"@ || v == "o"@ {
        match c {
            Command::Open(a) => if has_arg(s) {
                a matches Some(x) && x@ == arg_of(s)
            } else {
                a is None
            },
            _ => false,
        }
    } else if v == "quit"@ || v == "q"@ {
        c is Quit
    } else if v == "wrap"@ {
        match c {
            Command::Wrap(w, e) => if !has_arg(s) {
                w == DEFAULT_WRAP_WIDTH && (e matches Some(m) && m@
                    == "Missing width argument to wrap command"@)
            } else {
                let a = arg_of(s);
                if valid_usize_numeral(a) {
                    w == dec_val(num_body(a)) && e is None
                } else {
                    w == DEFAULT_WRAP_WIDTH && (e matches Some(m) && m@ == numeral_error_text(a))
                }
            },
            _ => false,
        }
    } else {
        c is Unknown
    }
}

/// The message reported for an unusable numeral.
pub open spec fn numeral_error_text(a: Seq<char>) -> Seq<char> {
    if num_body(a).len() == 0 {
        "cannot parse integer from empty string"@
    } else if !all_digits(num_body(a)) {
        "invalid digit found in string"@
    } else {
        "number too large to fit in target type"@
    }
}

impl Command {
    /// Parse one typed line.
    pub fn from(s: &String) -> (c: Command)
        ensures
            command_matches(s@, c),
    {
        let sp = find_stop(s.as_str(), 0, ' ', ' ');
        let verb = s.as_str().substring_char(0, sp);
        proof {
            assert(verb@ =~= verb_of(s@));
        }
        let n = s.as_str().unicode_len();
        if str_eq(verb, "open") || str_eq(verb, "o") {
            if sp < n {
                let arg = second_token(s, sp);
                Command::Open(Some(arg))
            } else {
                Command::Open(None)
            }
        } else if str_eq(verb, "quit") || str_eq(verb, "q") {
            Command::Quit
        } else if str_eq(verb, "wrap") {
            if sp < n {
                let arg = second_token(s, sp);
                match parse_usize(arg.as_str()) {
                    Ok(w) => Command::Wrap(w, None),
                    Err(e) => {
                        let msg = match e {
                            NumeralError::Empty => String::from_str(
                                "cannot parse integer from empty string",
                            ),
                            NumeralError::InvalidDigit => String::from_str(
                                "invalid digit found in string",
                            ),
                            NumeralError::TooLarge => String::from_str(
                                "number too large to fit in target type",
                            ),
                        };
                        Command::Wrap(DEFAULT_WRAP_WIDTH, Some(msg))
                    },
                }
            } else {
                Command::Wrap(
                    DEFAULT_WRAP_WIDTH,
                    Some(String::from_str("Missing width argument to wrap command")),
                )
            }
        } else {
            Command::Unknown
        }
    }
}

/// The token after the first space.
fn second_token(s: &String, sp: usize) -> (r: String)
    requires
        sp == first_space(s@),
        sp < s@.len(),
        s@.len() <= usize::MAX,
    ensures
        r@ == arg_of(s@),
{
    let e2 = find_stop(s.as_str(), sp + 1, ' ', ' ');
    let tok = s.as_str().substring_char(sp + 1, e2);
    proof {
        lemma_scan_skip(s@, sp + 1, e2 as int, ' ', ' ');
        let rest = s@.skip(sp + 1);
        assert(rest.take(e2 - (sp + 1)) =~= s@.subrange(sp + 1, e2 as int));
    }
    String::from_str(tok)
}

} // verus!
