//! Laws of the lexer and parser, stated over the specification functions
//! that the executable transducers are proved to follow.

use vstd::prelude::*;

use crate::ast::NodeModel;
use crate::lexer::classify;
use crate::lexer::scan_len;
use crate::lexer::spec_next;
use crate::lexer::spec_skip;
use crate::lexer::spec_tokens;
use crate::lexer::ErrorModel;
use crate::lexer::lemma_skip_props;
use crate::parser::spec_parse_call;
use crate::parser::spec_parse_next;
use crate::parser::spec_parse_sublevel;
use crate::parser::spec_parse_toplevel;
use crate::text::digits_end;
use crate::text::is_ascii_digit_char;
use crate::text::is_exponent_from;
use crate::text::is_separator_char;
use crate::text::is_special_from;
use crate::text::is_valid_float_text;
use crate::text::is_whitespace_char;
use crate::token::spec_render;
use crate::token::TokenModel;

verus! {

/// The characters that can stand in a valid numeric literal.
pub open spec fn is_float_char(c: char) -> bool {
    ||| is_ascii_digit_char(c)
    ||| c == '.'
    ||| c == '+'
    ||| c == '-'
    ||| c == 'e'
    ||| c == 'E'
    ||| c == 'i'
    ||| c == 'I'
    ||| c == 'n'
    ||| c == 'N'
    ||| c == 'f'
    ||| c == 'F'
    ||| c == 't'
    ||| c == 'T'
    ||| c == 'y'
    ||| c == 'Y'
    ||| c == 'a'
    ||| c == 'A'
}

/// No numeric-literal character is a separator, a comment head, or
/// whitespace.
pub proof fn lemma_float_char_plain(c: char)
    requires
        is_float_char(c),
    ensures
        !is_separator_char(c),
        c != '#',
        !is_whitespace_char(c),
{
}

/// Every character of a digit run is a digit.
proof fn lemma_digits_range(s: Seq<char>, i: int)
    ensures
        forall|j: int| i <= j < digits_end(s, i) ==> is_ascii_digit_char(s[j]),
    decreases s.len() - i,
{
    if !(i < 0 || i >= s.len() || !is_ascii_digit_char(s[i])) {
        lemma_digits_range(s, i + 1);
    }
}

/// A digit run stays inside the text.
proof fn lemma_digits_end_bounds(s: Seq<char>, i: int)
    requires
        0 <= i <= s.len(),
    ensures
        i <= digits_end(s, i) <= s.len(),
    decreases s.len() - i,
{
    if i < s.len() && is_ascii_digit_char(s[i]) {
        lemma_digits_end_bounds(s, i + 1);
    }
}

/// Every character of an exponent part is a numeric-literal character.
proof fn lemma_exponent_chars(s: Seq<char>, i: int)
    requires
        is_exponent_from(s, i),
    ensures
        forall|j: int| i <= j < s.len() ==> is_float_char(s[j]),
{
    let j0 = if i + 1 < s.len() && (s[i + 1] == '+' || s[i + 1] == '-') {
        i + 2
    } else {
        i + 1
    };
    lemma_digits_range(s, j0);
    assert forall|j: int| i <= j < s.len() implies is_float_char(s[j]) by {
        if j == i {
        } else if j < j0 {
        } else {
            assert(is_ascii_digit_char(s[j]));
        }
    }
}

/// Every character of a valid numeric literal is a numeric-literal
/// character.
pub proof fn lemma_float_chars(s: Seq<char>)
    requires
        is_valid_float_text(s),
    ensures
        forall|i: int| 0 <= i < s.len() ==> is_float_char(s[i]),
{
    let b: int = if s.len() > 0 && (s[0] == '+' || s[0] == '-') {
        1
    } else {
        0
    };
    if is_special_from(s, b) {
        assert forall|i: int| 0 <= i < s.len() implies is_float_char(s[i]) by {
            if i < b {
            } else if i == b {
            } else if i == b + 1 {
            } else if i == b + 2 {
            } else if i == b + 3 {
            } else if i == b + 4 {
            } else if i == b + 5 {
            } else if i == b + 6 {
            } else {
                assert(i == b + 7);
            }
        }
    } else {
        let d1 = digits_end(s, b);
        lemma_digits_end_bounds(s, b);
        lemma_digits_range(s, b);
        if d1 > b {
            let after = if d1 < s.len() && s[d1] == '.' {
                digits_end(s, d1 + 1)
            } else {
                d1
            };
            if d1 < s.len() && s[d1] == '.' {
                lemma_digits_end_bounds(s, d1 + 1);
                lemma_digits_range(s, d1 + 1);
            }
            if after < s.len() {
                lemma_exponent_chars(s, after);
            }
            assert forall|i: int| 0 <= i < s.len() implies is_float_char(s[i]) by {
                if i < b {
                } else if i < d1 {
                    assert(is_ascii_digit_char(s[i]));
                } else if d1 < s.len() && s[d1] == '.' && i == d1 {
                } else if d1 < s.len() && s[d1] == '.' && i < after {
                    assert(is_ascii_digit_char(s[i]));
                } else {
                    assert(is_float_char(s[i]));
                }
            }
        } else {
            let d2 = digits_end(s, b + 1);
            lemma_digits_end_bounds(s, b + 1);
            lemma_digits_range(s, b + 1);
            if d2 < s.len() {
                lemma_exponent_chars(s, d2);
            }
            assert forall|i: int| 0 <= i < s.len() implies is_float_char(s[i]) by {
                if i < b {
                } else if i == b {
                } else if i < d2 {
                    assert(is_ascii_digit_char(s[i]));
                } else {
                    assert(is_float_char(s[i]));
                }
            }
        }
    }
}

/// A text without separators is scanned whole.
pub proof fn lemma_scan_full(s: Seq<char>)
    requires
        forall|i: int| 0 <= i < s.len() ==> !is_separator_char(s[i]),
    ensures
        scan_len(s) == s.len(),
    decreases s.len(),
{
    if s.len() > 0 {
        assert(forall|i: int|
            0 <= i < s.drop_first().len() ==> !is_separator_char(s.drop_first()[i]));
        lemma_scan_full(s.drop_first());
    }
}

/// Round trip of token rendering: lexing the rendering of a token gives
/// back exactly that token and exhausts the input. An identifier qualifies
/// when it is non-empty, made of plain characters (no separators, `#`, or
/// whitespace), and does not open like a number; a number token qualifies
/// when it carries what the lexer can emit, a valid digit- or minus-led
/// literal.
pub proof fn lemma_render_roundtrip(t: TokenModel)
    requires
        (t matches TokenModel::Identifier(name) ==> name.len() > 0 && !is_ascii_digit_char(
            name[0],
        ) && name[0] != '-' && forall|i: int|
            0 <= i < name.len() ==> !is_separator_char(name[i]) && name[i] != '#'
                && !is_whitespace_char(name[i])),
        (t matches TokenModel::Number(text) ==> is_valid_float_text(text) && (is_ascii_digit_char(
            text[0],
        ) || (text[0] == '-' && text.len() >= 2))),
    ensures
        spec_next(spec_render(t)) == (
            Some(Ok::<TokenModel, ErrorModel>(t)),
            Seq::<char>::empty(),
        ),
{
    let s = spec_render(t);
    match t {
        TokenModel::Colon => {
            assert(s.drop_first() =~= Seq::<char>::empty());
        },
        TokenModel::LParen => {
            assert(s.drop_first() =~= Seq::<char>::empty());
        },
        TokenModel::RParen => {
            assert(s.drop_first() =~= Seq::<char>::empty());
        },
        TokenModel::Semi => {
            assert(s.drop_first() =~= Seq::<char>::empty());
        },
        TokenModel::ThinArrow => {
            assert(s.drop_first().drop_first() =~= Seq::<char>::empty());
        },
        TokenModel::Identifier(name) => {
            assert(spec_skip(s, false) == s);
            lemma_scan_full(name);
            assert(s.take(scan_len(s)) =~= name);
            assert(s.skip(scan_len(s)) =~= Seq::<char>::empty());
            assert(classify(name) == Ok::<TokenModel, ErrorModel>(TokenModel::Identifier(name)));
        },
        TokenModel::Number(text) => {
            lemma_float_chars(text);
            lemma_float_char_plain(text[0]);
            assert(spec_skip(s, false) == s);
            if is_ascii_digit_char(text[0]) {
                assert forall|i: int| 0 <= i < text.len() implies !is_separator_char(
                    text[i],
                ) by {
                    lemma_float_char_plain(text[i]);
                }
                lemma_scan_full(text);
                assert(s.take(scan_len(s)) =~= text);
                assert(s.skip(scan_len(s)) =~= Seq::<char>::empty());
            } else {
                let rest = s.drop_first();
                assert(rest[0] == text[1]);
                assert(is_float_char(text[1]));
                assert(rest[0] != '>');
                assert forall|i: int| 0 <= i < rest.len() implies !is_separator_char(
                    rest[i],
                ) by {
                    assert(rest[i] == text[i + 1]);
                    lemma_float_char_plain(text[i + 1]);
                }
                lemma_scan_full(rest);
                assert(seq!['-'].add(rest.take(scan_len(rest))) =~= text);
                assert(rest.skip(scan_len(rest)) =~= Seq::<char>::empty());
            }
        },
    }
}

/// Skipping whitespace and comments is idempotent: what it stops at, it
/// stops at again.
pub proof fn lemma_skip_idempotent(s: Seq<char>)
    ensures
        spec_skip(spec_skip(s, false), false) == spec_skip(s, false),
{
    lemma_skip_props(s, false);
}

/// Inside a comment, everything up to and including the closing newline is
/// consumed.
proof fn lemma_comment_body(c: Seq<char>, s: Seq<char>)
    requires
        forall|i: int| 0 <= i < c.len() ==> c[i] != '\n',
    ensures
        spec_skip(c.add(seq!['\n']).add(s), true) == spec_skip(s, false),
    decreases c.len(),
{
    let u = c.add(seq!['\n']).add(s);
    if c.len() == 0 {
        assert(u[0] == '\n');
        assert(u.drop_first() =~= s);
    } else {
        assert(u[0] == c[0]);
        assert(u.drop_first() =~= c.drop_first().add(seq!['\n']).add(s));
        assert(forall|i: int| 0 <= i < c.drop_first().len() ==> c.drop_first()[i] != '\n');
        lemma_comment_body(c.drop_first(), s);
    }
}

/// A whole comment line at the front of the input is skipped over: skipping
/// sees through it to the rest.
pub proof fn lemma_comment_line_skipped(c: Seq<char>, s: Seq<char>)
    requires
        forall|i: int| 0 <= i < c.len() ==> c[i] != '\n',
    ensures
        spec_skip(seq!['#'].add(c).add(seq!['\n']).add(s), false) == spec_skip(s, false),
{
    let u = seq!['#'].add(c).add(seq!['\n']).add(s);
    assert(u[0] == '#');
    assert(u.drop_first() =~= c.add(seq!['\n']).add(s));
    lemma_comment_body(c, s);
}

/// Two inputs that skip to the same place lex to the same tokens.
pub proof fn lemma_same_skip_same_tokens(x: Seq<char>, y: Seq<char>)
    requires
        spec_skip(x, false) == spec_skip(y, false),
    ensures
        spec_tokens(x) == spec_tokens(y),
{
}

/// A comment never affects token boundaries outside its own span: a source
/// opening with a whole comment line lexes to exactly the tokens of what
/// follows the newline.
pub proof fn lemma_comment_tokens(c: Seq<char>, s: Seq<char>)
    requires
        forall|i: int| 0 <= i < c.len() ==> c[i] != '\n',
    ensures
        spec_tokens(seq!['#'].add(c).add(seq!['\n']).add(s)) == spec_tokens(s),
{
    lemma_comment_line_skipped(c, s);
    lemma_same_skip_same_tokens(seq!['#'].add(c).add(seq!['\n']).add(s), s);
}

/// An unmatched `(` followed by the end of the tokens fails with
/// `UnmatchedParen` — not `UnexpectedEnd` — at the point the missing `)`
/// was expected: whether nothing follows the `(` at all, or the inner
/// expression is accepted and exhausts the tokens.
pub proof fn lemma_unclosed_paren(ts: Seq<TokenModel>)
    requires
        ts.len() > 0,
        ts[0] is LParen,
        ts.len() == 1 || (spec_parse_toplevel(ts.drop_first()).0 is Ok && spec_parse_toplevel(
            ts.drop_first(),
        ).1.len() == 0),
    ensures
        spec_parse_sublevel(ts).0 == Err::<NodeModel, crate::parser::ErrorModel>(
            crate::parser::ErrorModel::UnmatchedParen,
        ),
{
}

/// A source that skipping exhausts — empty, whitespace-only, or
/// comment-only — lexes to no tokens at all.
pub proof fn lemma_blank_source_no_tokens(s: Seq<char>)
    requires
        spec_skip(s, false).len() == 0,
    ensures
        spec_tokens(s) == Seq::<Result<TokenModel, ErrorModel>>::empty(),
{
}

/// No `Empty` sentinel anywhere inside a node.
pub open spec fn sentinel_free(n: NodeModel) -> bool
    decreases n,
{
    match n {
        NodeModel::Empty => false,
        NodeModel::Number(_) => true,
        NodeModel::Atom(_) => true,
        NodeModel::Call { function, arg } => sentinel_free(*function) && sentinel_free(*arg),
        NodeModel::Define { function: _, body } => sentinel_free(*body),
    }
}

/// A sub-level expression is either the bare sentinel or a tree the
/// sentinel does not reach into.
proof fn lemma_sublevel_sentinel(ts: Seq<TokenModel>)
    ensures
        (match spec_parse_sublevel(ts).0 {
            Ok(n) => n is Empty || sentinel_free(n),
            Err(_) => true,
        }),
    decreases ts.len(), 1int,
{
    if ts.len() > 0 && ts[0] is LParen {
        let rest0 = ts.drop_first();
        if rest0.len() > 0 {
            lemma_toplevel_sentinel(rest0);
        }
    }
}

/// Application parsing only ever embeds non-sentinel arguments, so it keeps
/// a sentinel-free accumulator sentinel-free.
proof fn lemma_call_sentinel(ts: Seq<TokenModel>, acc: NodeModel)
    requires
        sentinel_free(acc),
    ensures
        (match spec_parse_call(ts, acc).0 {
            Ok(n) => sentinel_free(n),
            Err(_) => true,
        }),
    decreases ts.len(), 2int,
{
    lemma_sublevel_sentinel(ts);
    crate::parser::lemma_sublevel_len(ts);
    let (sub, rest) = spec_parse_sublevel(ts);
    match sub {
        Ok(node) => {
            if !(node is Empty) && rest.len() < ts.len() {
                lemma_call_sentinel(
                    rest,
                    NodeModel::Call { function: Box::new(acc), arg: Box::new(node) },
                );
            }
        },
        Err(_) => {},
    }
}

/// A function definition's body is sentinel-free.
proof fn lemma_fundef_sentinel(name: Seq<char>, ts: Seq<TokenModel>)
    ensures
        (match crate::parser::spec_parse_fundef(name, ts).0 {
            Ok(n) => sentinel_free(n),
            Err(_) => true,
        }),
    decreases ts.len(), 1int,
{
    let (pr, rest) = crate::parser::spec_parse_params(ts);
    if pr is Ok && rest.len() < ts.len() {
        lemma_toplevel_sentinel(rest);
    }
}

/// The sentinel never leaks into a finished tree: every node a top-level
/// parse accepts is sentinel-free.
pub proof fn lemma_toplevel_sentinel(ts: Seq<TokenModel>)
    ensures
        (match spec_parse_toplevel(ts).0 {
            Ok(n) => sentinel_free(n),
            Err(_) => true,
        }),
    decreases ts.len(), 3int,
{
    if ts.len() > 0 {
        match ts[0] {
            TokenModel::Identifier(name) => {
                let rest = ts.drop_first();
                if rest.len() > 0 && rest[0] is Colon {
                    let rest2 = rest.drop_first();
                    if rest2.len() > 0 && !(rest2[0] is Colon) {
                        lemma_fundef_sentinel(name, rest2);
                    }
                } else {
                    lemma_call_sentinel(rest, NodeModel::Atom(name));
                }
            },
            _ => {},
        }
    }
}

/// So in particular for the node stream: whatever element the parser
/// yields, an accepted node is sentinel-free.
pub proof fn lemma_next_sentinel(ts: Seq<TokenModel>)
    ensures
        (match spec_parse_next(ts).0 {
            Some(Ok(n)) => sentinel_free(n),
            _ => true,
        }),
{
    if ts.len() > 0 {
        lemma_toplevel_sentinel(ts);
    }
}

/// A parser over no tokens produces no nodes: the sequence ends at once,
/// with no error.
pub proof fn lemma_no_tokens_no_nodes()
    ensures
        spec_parse_next(Seq::<TokenModel>::empty()) == (
            Option::<Result<NodeModel, crate::parser::ErrorModel>>::None,
            Seq::<TokenModel>::empty(),
        ),
{
}

} // verus!
