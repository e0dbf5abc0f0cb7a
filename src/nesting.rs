//! How deep the TOML parser nests on a text: a scan that follows its
//! tokenizer through strings and comments and tracks the arrays and inline
//! tables that are open, plus the dotted-key segments around them.
use vstd::prelude::*;

verus! {

/// The most nesting that a document may have.
pub const MAX_TOML_NESTING: usize = 256;

/// Where the scan stands in the text.
#[derive(Debug, Clone, Copy, PartialEq, Eq, Structural)]
pub enum Mode {
    /// Between tokens.
    Outside,
    /// In a comment, up to the end of the line.
    Comment,
    /// After one `"`.
    BasicStart,
    /// After `""`: an empty string, or the opening of a multi-line one.
    BasicTwo,
    /// In a one-line basic string.
    Basic,
    /// After a backslash in a one-line basic string.
    BasicEscape,
    /// In a multi-line basic string, after some closing quotes.
    MultiBasic,
    /// After a backslash in a multi-line basic string.
    MultiBasicEscape,
    /// After three or four quotes that closed a multi-line basic string.
    MultiBasicClose,
    /// After one `'`.
    LiteralStart,
    /// After `''`.
    LiteralTwo,
    /// In a one-line literal string.
    Literal,
    /// In a multi-line literal string, after some closing quotes.
    MultiLiteral,
    /// After three or four quotes that closed a multi-line literal string.
    MultiLiteralClose,
}

/// The scan's state: mode, quotes counted, open arrays and inline tables,
/// and dots of the keys around the current point.
pub type Lex = (Mode, nat, nat, nat);

/// A character read between tokens.
pub open spec fn outside_step(depth: nat, dots: nat, c: char) -> Lex {
    if c == '#' {
        (Mode::Comment, 0, depth, dots)
    } else if c == '"' {
        (Mode::BasicStart, 0, depth, dots)
    } else if c == '\'' {
        (Mode::LiteralStart, 0, depth, dots)
    } else if c == '[' || c == '{' {
        (Mode::Outside, 0, depth + 1, dots)
    } else if c == ']' || c == '}' {
        (Mode::Outside, 0, if depth > 0 { (depth - 1) as nat } else { 0 }, dots)
    } else if c == '.' {
        (Mode::Outside, 0, depth, dots + 1)
    } else if c == '\n' {
        (Mode::Outside, 0, depth, if depth == 0 { 0 } else { dots })
    } else {
        (Mode::Outside, 0, depth, dots)
    }
}

/// One character of the scan.
pub open spec fn lex_step(l: Lex, c: char) -> Lex {
    let (m, q, d, k) = l;
    match m {
        Mode::Outside => outside_step(d, k, c),
        Mode::Comment => if c == '\n' {
            outside_step(d, k, c)
        } else {
            l
        },
        Mode::BasicStart => if c == '"' {
            (Mode::BasicTwo, 0, d, k)
        } else if c == '\\' {
            (Mode::BasicEscape, 0, d, k)
        } else {
            (Mode::Basic, 0, d, k)
        },
        Mode::BasicTwo => if c == '"' {
            (Mode::MultiBasic, 0, d, k)
        } else {
            outside_step(d, k, c)
        },
        Mode::Basic => if c == '"' {
            (Mode::Outside, 0, d, k)
        } else if c == '\\' {
            (Mode::BasicEscape, 0, d, k)
        } else {
            l
        },
        Mode::BasicEscape => (Mode::Basic, 0, d, k),
        Mode::MultiBasic => if c == '"' {
            if q >= 2 {
                (Mode::MultiBasicClose, 3, d, k)
            } else {
                (Mode::MultiBasic, q + 1, d, k)
            }
        } else if c == '\\' {
            (Mode::MultiBasicEscape, 0, d, k)
        } else {
            (Mode::MultiBasic, 0, d, k)
        },
        Mode::MultiBasicEscape => (Mode::MultiBasic, 0, d, k),
        Mode::MultiBasicClose => if c == '"' {
            if q >= 4 {
                (Mode::Outside, 0, d, k)
            } else {
                (Mode::MultiBasicClose, q + 1, d, k)
            }
        } else {
            outside_step(d, k, c)
        },
        Mode::LiteralStart => if c == '\'' {
            (Mode::LiteralTwo, 0, d, k)
        } else {
            (Mode::Literal, 0, d, k)
        },
        Mode::LiteralTwo => if c == '\'' {
            (Mode::MultiLiteral, 0, d, k)
        } else {
            outside_step(d, k, c)
        },
        Mode::Literal => if c == '\'' {
            (Mode::Outside, 0, d, k)
        } else {
            l
        },
        Mode::MultiLiteral => if c == '\'' {
            if q >= 2 {
                (Mode::MultiLiteralClose, 3, d, k)
            } else {
                (Mode::MultiLiteral, q + 1, d, k)
            }
        } else {
            (Mode::MultiLiteral, 0, d, k)
        },
        Mode::MultiLiteralClose => if c == '\'' {
            if q >= 4 {
                (Mode::Outside, 0, d, k)
            } else {
                (Mode::MultiLiteralClose, q + 1, d, k)
            }
        } else {
            outside_step(d, k, c)
        },
    }
}

/// The scan's state after a text, and the most nesting seen on the way.
pub open spec fn scan(s: Seq<char>) -> (Lex, nat)
    decreases s.len(),
{
    if s.len() == 0 {
        ((Mode::Outside, 0, 0, 0), 0)
    } else {
        let (l, peak) = scan(s.drop_last());
        let n = lex_step(l, s.last());
        (n, if peak < n.2 + n.3 { n.2 + n.3 } else { peak })
    }
}

/// A bound on how deep a TOML parser recurses on a text: at each point,
/// the arrays and inline tables open there (brackets and braces in strings
/// and comments do not count, and a table header closes on its own line),
/// plus the dots of the keys that lead there.
pub open spec fn nesting_measure(s: Seq<char>) -> nat {
    scan(s).1
}

/// The text is shallow enough to be handed to the TOML parser.
pub open spec fn nesting_bounded(s: Seq<char>) -> bool {
    nesting_measure(s) <= MAX_TOML_NESTING
}

/// A longer prefix has no smaller nesting measure.
proof fn lemma_measure_grows(s: Seq<char>, i: int, j: int)
    requires
        0 <= i <= j <= s.len(),
    ensures
        nesting_measure(s.take(i)) <= nesting_measure(s.take(j)),
    decreases j - i,
{
    if i < j {
        lemma_measure_grows(s, i, j - 1);
        assert(s.take(j).drop_last() =~= s.take(j - 1));
    }
}

/// `outside_step` on machine integers.
fn outside_exec(depth: usize, dots: usize, c: char) -> (r: (Mode, u8, usize, usize))
    requires
        depth + dots <= MAX_TOML_NESTING,
    ensures
        (r.0, r.1 as nat, r.2 as nat, r.3 as nat) == outside_step(depth as nat, dots as nat, c),
{
    if c == '#' {
        (Mode::Comment, 0, depth, dots)
    } else if c == '"' {
        (Mode::BasicStart, 0, depth, dots)
    } else if c == '\'' {
        (Mode::LiteralStart, 0, depth, dots)
    } else if c == '[' || c == '{' {
        (Mode::Outside, 0, depth + 1, dots)
    } else if c == ']' || c == '}' {
        (Mode::Outside, 0, if depth > 0 { depth - 1 } else { 0 }, dots)
    } else if c == '.' {
        (Mode::Outside, 0, depth, dots + 1)
    } else if c == '\n' {
        (Mode::Outside, 0, depth, if depth == 0 { 0 } else { dots })
    } else {
        (Mode::Outside, 0, depth, dots)
    }
}

/// `lex_step` on machine integers.
fn lex_step_exec(m: Mode, q: u8, d: usize, k: usize, c: char) -> (r: (Mode, u8, usize, usize))
    requires
        d + k <= MAX_TOML_NESTING,
        q <= 4,
    ensures
        (r.0, r.1 as nat, r.2 as nat, r.3 as nat) == lex_step((m, q as nat, d as nat, k as nat), c),
        r.1 <= 4,
{
    match m {
        Mode::Outside => outside_exec(d, k, c),
        Mode::Comment => if c == '\n' {
            outside_exec(d, k, c)
        } else {
            (m, q, d, k)
        },
        Mode::BasicStart => if c == '"' {
            (Mode::BasicTwo, 0, d, k)
        } else if c == '\\' {
            (Mode::BasicEscape, 0, d, k)
        } else {
            (Mode::Basic, 0, d, k)
        },
        Mode::BasicTwo => if c == '"' {
            (Mode::MultiBasic, 0, d, k)
        } else {
            outside_exec(d, k, c)
        },
        Mode::Basic => if c == '"' {
            (Mode::Outside, 0, d, k)
        } else if c == '\\' {
            (Mode::BasicEscape, 0, d, k)
        } else {
            (m, q, d, k)
        },
        Mode::BasicEscape => (Mode::Basic, 0, d, k),
        Mode::MultiBasic => if c == '"' {
            if q >= 2 {
                (Mode::MultiBasicClose, 3, d, k)
            } else {
                (Mode::MultiBasic, q + 1, d, k)
            }
        } else if c == '\\' {
            (Mode::MultiBasicEscape, 0, d, k)
        } else {
            (Mode::MultiBasic, 0, d, k)
        },
        Mode::MultiBasicEscape => (Mode::MultiBasic, 0, d, k),
        Mode::MultiBasicClose => if c == '"' {
            if q >= 4 {
                (Mode::Outside, 0, d, k)
            } else {
                (Mode::MultiBasicClose, q + 1, d, k)
            }
        } else {
            outside_exec(d, k, c)
        },
        Mode::LiteralStart => if c == '\'' {
            (Mode::LiteralTwo, 0, d, k)
        } else {
            (Mode::Literal, 0, d, k)
        },
        Mode::LiteralTwo => if c == '\'' {
            (Mode::MultiLiteral, 0, d, k)
        } else {
            outside_exec(d, k, c)
        },
        Mode::Literal => if c == '\'' {
            (Mode::Outside, 0, d, k)
        } else {
            (m, q, d, k)
        },
        Mode::MultiLiteral => if c == '\'' {
            if q >= 2 {
                (Mode::MultiLiteralClose, 3, d, k)
            } else {
                (Mode::MultiLiteral, q + 1, d, k)
            }
        } else {
            (Mode::MultiLiteral, 0, d, k)
        },
        Mode::MultiLiteralClose => if c == '\'' {
            if q >= 4 {
                (Mode::Outside, 0, d, k)
            } else {
                (Mode::MultiLiteralClose, q + 1, d, k)
            }
        } else {
            outside_exec(d, k, c)
        },
    }
}

/// Whether a text is shallow enough to be handed to the TOML parser.
pub fn toml_nesting_bounded(text: &str) -> (r: bool)
    ensures
        r == nesting_bounded(text@),
{
    let mut mode = Mode::Outside;
    let mut quotes: u8 = 0;
    let mut depth: usize = 0;
    let mut dots: usize = 0;
    let ghost whole = text@;
    for c in it: text.chars()
        invariant
            it.seq() == whole,
            whole == text@,
            scan(whole.take(it.index() as int)).0 == (mode, quotes as nat, depth as nat, dots as nat),
            depth + dots <= scan(whole.take(it.index() as int)).1,
            scan(whole.take(it.index() as int)).1 <= MAX_TOML_NESTING,
            quotes <= 4,
    {
        let ghost k = it.index() as int;
        assert(whole.take(k + 1).drop_last() =~= whole.take(k));
        assert(whole.take(k + 1).last() == c);
        let r = lex_step_exec(mode, quotes, depth, dots, c);
        mode = r.0;
        quotes = r.1;
        depth = r.2;
        dots = r.3;
        if depth + dots > MAX_TOML_NESTING {
            proof {
                assert(k + 1 <= whole.len());
                lemma_measure_grows(whole, k + 1, whole.len() as int);
                assert(whole.take(whole.len() as int) =~= whole);
            }
            return false;
        }
    }
    assert(whole.take(whole.len() as int) =~= whole);
    true
}

} // verus!
