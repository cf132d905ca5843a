//! Query tokenization for full-text search compatibility.
//!
//! Tokens split on whitespace and punctuation, keep code operators such as
//! `::` and `->`, lowercase ASCII letters and drop stop words.

use vstd::prelude::*;
use vstd::hash_set::StringHashSet;
use crate::order::views;
use crate::text::{
    ascii_lower, ascii_lower_seq, char_whitespace, is_ascii_char, is_ascii_lower, is_ascii_upper,
    lemma_trim_back_shape, lemma_trim_front_shape, trim_front, char_alphabetic, char_alphanumeric, char_is_alphabetic, char_is_alphanumeric,
    chars_of, string_of, to_ascii_lower, trim_chars, trim_seq,
};

verus! {

/// Characters that may start a code operator.
pub open spec fn is_operator_char(c: char) -> bool {
    c == ':' || c == '-' || c == '>' || c == '<' || c == '=' || c == '!' || c == '&' || c == '|'
}

/// Two-character operators kept as one token.
pub open spec fn is_operator_pair(c: char, d: char) -> bool {
    ||| c == ':' && d == ':'
    ||| c == '-' && d == '>'
    ||| c == '=' && d == '>'
    ||| c == '<' && d == '-'
    ||| c == '!' && d == '='
    ||| c == '=' && d == '='
    ||| c == '<' && d == '='
    ||| c == '>' && d == '='
}

/// Word boundaries that are dropped.
pub open spec fn is_boundary_char(c: char) -> bool {
    c == ' ' || c == '\t' || c == '\n' || c == '\r' || c == ',' || c == ';' || c == '('
        || c == ')' || c == '[' || c == ']' || c == '{' || c == '}' || c == '"' || c == '\''
        || c == '*' || c == '/'
}

/// Every character is alphabetic.
pub open spec fn all_alphabetic(s: Seq<char>) -> bool {
    forall|i: int| 0 <= i < s.len() ==> char_alphabetic(#[trigger] s[i])
}

/// Adding a candidate token: it is trimmed; empty results are dropped;
/// operators (a first character that is neither alphanumeric nor `_`) are kept;
/// purely alphabetic stop words are dropped; everything else is kept.
pub open spec fn add_token_spec(
    stop: Set<Seq<char>>,
    tokens: Seq<Seq<char>>,
    token: Seq<char>,
) -> Seq<Seq<char>> {
    let t = trim_seq(token);
    if t.len() == 0 {
        tokens
    } else if !char_alphanumeric(t[0]) && t[0] != '_' {
        tokens.push(t)
    } else if all_alphabetic(t) && stop.contains(t) {
        tokens
    } else {
        tokens.push(t)
    }
}

/// Emit the word being built, if any.
pub open spec fn flush_spec(
    stop: Set<Seq<char>>,
    tokens: Seq<Seq<char>>,
    cur: Seq<char>,
) -> Seq<Seq<char>> {
    if cur.len() > 0 {
        add_token_spec(stop, tokens, cur)
    } else {
        tokens
    }
}

/// Tokens produced from position `i` on, given the tokens so far and the word
/// being built.
pub open spec fn tokenize_from(
    stop: Set<Seq<char>>,
    chars: Seq<char>,
    i: nat,
    tokens: Seq<Seq<char>>,
    cur: Seq<char>,
) -> Seq<Seq<char>>
    decreases chars.len() - i,
{
    if i >= chars.len() {
        flush_spec(stop, tokens, cur)
    } else {
        let c = chars[i as int];
        if is_operator_char(c) {
            let had = cur.len() > 0;
            let t1 = flush_spec(stop, tokens, cur);
            let multi = i + 1 < chars.len() && is_operator_pair(c, chars[i + 1int]);
            let op = if multi {
                seq![c, chars[i + 1int]]
            } else {
                seq![c]
            };
            let j: nat = if multi {
                i + 1
            } else {
                i
            };
            let next_alnum = j + 1 < chars.len() && char_alphanumeric(chars[j + 1int]);
            let t2 = if multi || (!had && next_alnum) {
                add_token_spec(stop, t1, op)
            } else {
                t1
            };
            tokenize_from(stop, chars, j + 1, t2, Seq::empty())
        } else if is_boundary_char(c) {
            tokenize_from(stop, chars, i + 1, flush_spec(stop, tokens, cur), Seq::empty())
        } else if c == '_' || c == '.' {
            tokenize_from(stop, chars, i + 1, tokens, cur.push(c))
        } else if char_alphanumeric(c) {
            tokenize_from(stop, chars, i + 1, tokens, cur.push(ascii_lower(c)))
        } else {
            tokenize_from(stop, chars, i + 1, flush_spec(stop, tokens, cur), Seq::empty())
        }
    }
}

/// The tokens of a query.
pub open spec fn tokenize_spec(stop: Set<Seq<char>>, query: Seq<char>) -> Seq<Seq<char>> {
    tokenize_from(stop, query, 0, Seq::empty(), Seq::empty())
}

/// The default English stop words.
pub open spec fn default_stop_word_set() -> Set<Seq<char>> {
    set![
        "a"@, "an"@, "and"@, "are"@, "as"@, "at"@, "be"@, "by"@, "for"@, "from"@,
        "has"@, "he"@, "in"@, "is"@, "it"@, "its"@, "of"@, "on"@, "that"@, "the"@,
        "to"@, "was"@, "will"@, "with"@,
    ]
}


/// Every token is non-empty, and no token that starts like a word (an
/// alphanumeric character or `_`) is a purely alphabetic stop word.
pub open spec fn clean_tokens(stop: Set<Seq<char>>, ts: Seq<Seq<char>>) -> bool {
    forall|k: int|
        0 <= k < ts.len() ==> (#[trigger] ts[k]).len() > 0 && ((char_alphanumeric(ts[k][0])
            || ts[k][0] == '_') ==> !(all_alphabetic(ts[k]) && stop.contains(ts[k])))
}

/// Every token is non-empty and none is a purely alphabetic stop word.
pub open spec fn stop_free_tokens(stop: Set<Seq<char>>, ts: Seq<Seq<char>>) -> bool {
    forall|k: int|
        0 <= k < ts.len() ==> (#[trigger] ts[k]).len() > 0 && !(all_alphabetic(ts[k])
            && stop.contains(ts[k]))
}

proof fn lemma_add_token_clean(stop: Set<Seq<char>>, tokens: Seq<Seq<char>>, token: Seq<char>)
    requires
        clean_tokens(stop, tokens),
    ensures
        clean_tokens(stop, add_token_spec(stop, tokens, token)),
{
    let r = add_token_spec(stop, tokens, token);
    assert forall|k: int| 0 <= k < r.len() implies (#[trigger] r[k]).len() > 0 && ((
    char_alphanumeric(r[k][0]) || r[k][0] == '_') ==> !(all_alphabetic(r[k]) && stop.contains(
        r[k],
    ))) by {
        if k < tokens.len() {
            assert(r[k] == tokens[k]);
        }
    }
}

proof fn lemma_tokenize_from_clean(
    stop: Set<Seq<char>>,
    chars: Seq<char>,
    i: nat,
    tokens: Seq<Seq<char>>,
    cur: Seq<char>,
)
    requires
        clean_tokens(stop, tokens),
    ensures
        clean_tokens(stop, tokenize_from(stop, chars, i, tokens, cur)),
    decreases chars.len() - i,
{
    if cur.len() > 0 {
        lemma_add_token_clean(stop, tokens, cur);
    }
    let t1 = flush_spec(stop, tokens, cur);
    if i < chars.len() {
        let c = chars[i as int];
        if is_operator_char(c) {
            let multi = i + 1 < chars.len() && is_operator_pair(c, chars[i + 1int]);
            let op = if multi {
                seq![c, chars[i + 1int]]
            } else {
                seq![c]
            };
            let j: nat = if multi {
                i + 1
            } else {
                i
            };
            lemma_add_token_clean(stop, t1, op);
            let next_alnum = j + 1 < chars.len() && char_alphanumeric(chars[j + 1int]);
            let t2 = if multi || (!(cur.len() > 0) && next_alnum) {
                add_token_spec(stop, t1, op)
            } else {
                t1
            };
            lemma_tokenize_from_clean(stop, chars, j + 1, t2, Seq::empty());
        } else if is_boundary_char(c) {
            lemma_tokenize_from_clean(stop, chars, i + 1, t1, Seq::empty());
        } else if c == '_' || c == '.' {
            lemma_tokenize_from_clean(stop, chars, i + 1, tokens, cur.push(c));
        } else if char_alphanumeric(c) {
            lemma_tokenize_from_clean(stop, chars, i + 1, tokens, cur.push(ascii_lower(c)));
        } else {
            lemma_tokenize_from_clean(stop, chars, i + 1, t1, Seq::empty());
        }
    }
}

/// Law: whatever the query, every token is non-empty and no word-like token
/// is a stop word of the tokenizer.
pub proof fn lemma_tokens_are_clean(stop: Set<Seq<char>>, query: Seq<char>)
    ensures
        clean_tokens(stop, tokenize_spec(stop, query)),
{
    lemma_tokenize_from_clean(stop, query, 0, Seq::empty(), Seq::empty());
}

/// A character a token may hold: an operator character, `_`, `.`, or an
/// alphanumeric character that is not an ASCII uppercase letter.
pub open spec fn token_char(c: char) -> bool {
    is_operator_char(c) || c == '_' || c == '.' || (char_alphanumeric(c) && !is_ascii_upper(c))
}

/// Every character of the text may stand in a token.
pub open spec fn token_chars(t: Seq<char>) -> bool {
    forall|i: int| 0 <= i < t.len() ==> token_char(#[trigger] t[i])
}

/// Every token holds token characters only.
pub open spec fn tokens_of_token_chars(ts: Seq<Seq<char>>) -> bool {
    forall|k: int| 0 <= k < ts.len() ==> token_chars(#[trigger] ts[k])
}

/// How ASCII lowercasing treats one character: it is idempotent, leaves
/// every character class the tokenizer looks at unchanged, and never yields
/// an ASCII uppercase letter.
proof fn lemma_ascii_lower_char(c: char)
    ensures
        ascii_lower(ascii_lower(c)) == ascii_lower(c),
        !is_ascii_upper(ascii_lower(c)),
        char_alphanumeric(ascii_lower(c)) == char_alphanumeric(c),
        is_operator_char(ascii_lower(c)) == is_operator_char(c),
        is_boundary_char(ascii_lower(c)) == is_boundary_char(c),
        (ascii_lower(c) == '_') == (c == '_'),
        (ascii_lower(c) == '.') == (c == '.'),
        is_ascii_upper(c) ==> !is_operator_char(c) && !is_boundary_char(c) && c != '_' && c
            != '.' && char_alphanumeric(c),
        !is_ascii_upper(c) ==> ascii_lower(c) == c,
{
    if is_ascii_upper(c) {
        let v = (c as u32) + 32;
        assert(97 <= v <= 122);
        let d = ((v as u8) as char);
        assert((v as u8) as u32 == v);
        assert(d as u32 == v);
        assert(is_ascii_lower(d) && is_ascii_char(d));
    }
}

/// Trimming keeps only characters of the text.
proof fn lemma_trim_keeps_token_chars(t: Seq<char>)
    requires
        token_chars(t),
    ensures
        token_chars(trim_seq(t)),
{
    lemma_trim_front_shape(t);
    let f = trim_front(t);
    lemma_trim_back_shape(f);
    let r = trim_seq(t);
    assert forall|i: int| 0 <= i < r.len() implies token_char(#[trigger] r[i]) by {
        assert(r[i] == f[i]);
        assert(f[i] == t[t.len() - f.len() + i]);
    }
}

proof fn lemma_add_token_chars(stop: Set<Seq<char>>, tokens: Seq<Seq<char>>, token: Seq<char>)
    requires
        tokens_of_token_chars(tokens),
        token_chars(token),
    ensures
        tokens_of_token_chars(add_token_spec(stop, tokens, token)),
{
    lemma_trim_keeps_token_chars(token);
    let r = add_token_spec(stop, tokens, token);
    assert forall|k: int| 0 <= k < r.len() implies token_chars(#[trigger] r[k]) by {
        if k < tokens.len() {
            assert(r[k] == tokens[k]);
        }
    }
}

proof fn lemma_tokenize_from_token_chars(
    stop: Set<Seq<char>>,
    chars: Seq<char>,
    i: nat,
    tokens: Seq<Seq<char>>,
    cur: Seq<char>,
)
    requires
        tokens_of_token_chars(tokens),
        token_chars(cur),
    ensures
        tokens_of_token_chars(tokenize_from(stop, chars, i, tokens, cur)),
    decreases chars.len() - i,
{
    if cur.len() > 0 {
        lemma_add_token_chars(stop, tokens, cur);
    }
    let t1 = flush_spec(stop, tokens, cur);
    if i < chars.len() {
        let c = chars[i as int];
        if is_operator_char(c) {
            let multi = i + 1 < chars.len() && is_operator_pair(c, chars[i + 1int]);
            let op = if multi {
                seq![c, chars[i + 1int]]
            } else {
                seq![c]
            };
            let j: nat = if multi {
                i + 1
            } else {
                i
            };
            assert(token_chars(op)) by {
                assert forall|q: int| 0 <= q < op.len() implies token_char(#[trigger] op[q]) by {
                    if q == 1 {
                        assert(is_operator_char(chars[i + 1int]));
                    }
                }
            }
            lemma_add_token_chars(stop, t1, op);
            let next_alnum = j + 1 < chars.len() && char_alphanumeric(chars[j + 1int]);
            let t2 = if multi || (!(cur.len() > 0) && next_alnum) {
                add_token_spec(stop, t1, op)
            } else {
                t1
            };
            lemma_tokenize_from_token_chars(stop, chars, j + 1, t2, Seq::empty());
        } else if is_boundary_char(c) {
            lemma_tokenize_from_token_chars(stop, chars, i + 1, t1, Seq::empty());
        } else if c == '_' || c == '.' {
            assert(token_chars(cur.push(c))) by {
                assert forall|q: int| 0 <= q < cur.len() + 1 implies token_char(#[trigger] cur.push(c)[q]) by {
                    if q < cur.len() {
                        assert(cur.push(c)[q] == cur[q]);
                    }
                }
            }
            lemma_tokenize_from_token_chars(stop, chars, i + 1, tokens, cur.push(c));
        } else if char_alphanumeric(c) {
            let d = ascii_lower(c);
            lemma_ascii_lower_char(c);
            assert(token_chars(cur.push(d))) by {
                assert forall|q: int| 0 <= q < cur.len() + 1 implies token_char(#[trigger] cur.push(d)[q]) by {
                    if q < cur.len() {
                        assert(cur.push(d)[q] == cur[q]);
                    }
                }
            }
            lemma_tokenize_from_token_chars(stop, chars, i + 1, tokens, cur.push(d));
        } else {
            lemma_tokenize_from_token_chars(stop, chars, i + 1, t1, Seq::empty());
        }
    }
}

/// Law: whatever the query, every character of every token is an operator
/// character, `_`, `.`, or an alphanumeric character other than an ASCII
/// uppercase letter; so no token holds an ASCII uppercase letter or an ASCII
/// whitespace character.
pub proof fn lemma_tokens_are_lowercase_words(stop: Set<Seq<char>>, query: Seq<char>)
    ensures
        tokens_of_token_chars(tokenize_spec(stop, query)),
        forall|k: int, i: int|
            0 <= k < tokenize_spec(stop, query).len() && 0 <= i < tokenize_spec(stop, query)[k].len()
                ==> !is_ascii_upper(#[trigger] tokenize_spec(stop, query)[k][i]) && (is_ascii_char(
                tokenize_spec(stop, query)[k][i],
            ) ==> !char_whitespace(tokenize_spec(stop, query)[k][i])),
{
    lemma_tokenize_from_token_chars(stop, query, 0, Seq::empty(), Seq::empty());
    let ts = tokenize_spec(stop, query);
    assert forall|k: int, i: int| 0 <= k < ts.len() && 0 <= i < ts[k].len() implies !is_ascii_upper(
        #[trigger] ts[k][i],
    ) && (is_ascii_char(ts[k][i]) ==> !char_whitespace(ts[k][i])) by {
        assert(token_chars(ts[k]));
        assert(token_char(ts[k][i]));
    }
}

proof fn lemma_tokenize_from_ignores_ascii_case(
    stop: Set<Seq<char>>,
    chars: Seq<char>,
    i: nat,
    tokens: Seq<Seq<char>>,
    cur: Seq<char>,
)
    ensures
        tokenize_from(stop, chars, i, tokens, cur) == tokenize_from(
            stop,
            ascii_lower_seq(chars),
            i,
            tokens,
            cur,
        ),
    decreases chars.len() - i,
{
    let low = ascii_lower_seq(chars);
    assert(low.len() == chars.len());
    if i < chars.len() {
        let c = chars[i as int];
        lemma_ascii_lower_char(c);
        assert(low[i as int] == ascii_lower(c));
        if is_operator_char(c) {
            assert(low[i as int] == c);
            if i + 1 < chars.len() {
                let x = chars[i + 1int];
                lemma_ascii_lower_char(x);
                assert(low[i + 1int] == ascii_lower(x));
                if is_ascii_upper(x) {
                    assert(!is_operator_char(ascii_lower(x)));
                    assert(!is_operator_pair(c, x));
                    assert(!is_operator_pair(c, ascii_lower(x)));
                }
            }
            let multi = i + 1 < chars.len() && is_operator_pair(c, chars[i + 1int]);
            let j: nat = if multi {
                i + 1
            } else {
                i
            };
            if j + 1 < chars.len() {
                lemma_ascii_lower_char(chars[j + 1int]);
                assert(low[j + 1int] == ascii_lower(chars[j + 1int]));
            }
            let op = if multi {
                seq![c, chars[i + 1int]]
            } else {
                seq![c]
            };
            let next_alnum = j + 1 < chars.len() && char_alphanumeric(chars[j + 1int]);
            let t2 = if multi || (!(cur.len() > 0) && next_alnum) {
                add_token_spec(stop, flush_spec(stop, tokens, cur), op)
            } else {
                flush_spec(stop, tokens, cur)
            };
            lemma_tokenize_from_ignores_ascii_case(stop, chars, j + 1, t2, Seq::empty());
        } else if is_boundary_char(c) {
            lemma_tokenize_from_ignores_ascii_case(
                stop,
                chars,
                i + 1,
                flush_spec(stop, tokens, cur),
                Seq::empty(),
            );
        } else if c == '_' || c == '.' {
            lemma_tokenize_from_ignores_ascii_case(stop, chars, i + 1, tokens, cur.push(c));
        } else if char_alphanumeric(c) {
            lemma_tokenize_from_ignores_ascii_case(
                stop,
                chars,
                i + 1,
                tokens,
                cur.push(ascii_lower(c)),
            );
        } else {
            lemma_tokenize_from_ignores_ascii_case(
                stop,
                chars,
                i + 1,
                flush_spec(stop, tokens, cur),
                Seq::empty(),
            );
        }
    }
}

/// Law: ASCII case does not matter: a query and the query with its ASCII
/// letters lowercased give the same tokens.
pub proof fn lemma_tokenize_ignores_ascii_case(stop: Set<Seq<char>>, query: Seq<char>)
    ensures
        tokenize_spec(stop, query) == tokenize_spec(stop, ascii_lower_seq(query)),
{
    lemma_tokenize_from_ignores_ascii_case(stop, query, 0, Seq::empty(), Seq::empty());
}

/// A non-empty word of ASCII lowercase letters.
pub open spec fn lowercase_word(w: Seq<char>) -> bool {
    w.len() > 0 && forall|i: int| 0 <= i < w.len() ==> is_ascii_lower(#[trigger] w[i])
}

/// The two-character code operators: `::`, `->`, `=>`, `<-`, `!=`, `==`,
/// `<=` and `>=`.
pub open spec fn two_char_operator(op: Seq<char>) -> bool {
    ||| op == seq![':', ':']
    ||| op == seq!['-', '>']
    ||| op == seq!['=', '>']
    ||| op == seq!['<', '-']
    ||| op == seq!['!', '=']
    ||| op == seq!['=', '=']
    ||| op == seq!['<', '=']
    ||| op == seq!['>', '=']
}

/// Reading a run of lowercase letters only extends the word being built.
proof fn lemma_word_run(
    stop: Set<Seq<char>>,
    chars: Seq<char>,
    i: nat,
    w: Seq<char>,
    tokens: Seq<Seq<char>>,
    cur: Seq<char>,
)
    requires
        i + w.len() <= chars.len(),
        forall|k: int| 0 <= k < w.len() ==> chars[i + k] == w[k] && is_ascii_lower(#[trigger] w[k]),
    ensures
        tokenize_from(stop, chars, i, tokens, cur) == tokenize_from(
            stop,
            chars,
            i + w.len(),
            tokens,
            cur + w,
        ),
    decreases w.len(),
{
    if w.len() > 0 {
        let c = chars[i as int];
        assert(c == w[0]);
        assert(is_ascii_lower(c));
        lemma_ascii_lower_char(c);
        let rest = w.drop_first();
        assert forall|k: int| 0 <= k < rest.len() implies chars[(i + 1) + k] == rest[k]
            && is_ascii_lower(#[trigger] rest[k]) by {
            assert(rest[k] == w[k + 1]);
            assert(chars[i + (k + 1)] == w[k + 1]);
        }
        lemma_word_run(stop, chars, i + 1, rest, tokens, cur.push(c));
        assert(cur.push(c) + rest =~= cur + w);
    } else {
        assert(cur + w =~= cur);
    }
}

/// A lowercase word that is not a stop word is added as it is.
proof fn lemma_add_word(stop: Set<Seq<char>>, tokens: Seq<Seq<char>>, w: Seq<char>)
    requires
        lowercase_word(w),
        !stop.contains(w),
    ensures
        add_token_spec(stop, tokens, w) == tokens.push(w),
{
    assert(is_ascii_lower(w[0]));
    assert(is_ascii_lower(w[w.len() - 1]));
    assert(trim_seq(w) == w);
}

/// Law: a two-character operator standing between two words, with a space on
/// each side, is kept as one token between them: the tokens of
/// `a OP b` are `a`, `OP` and `b`, for any words of lowercase letters that are
/// not stop words.
pub proof fn lemma_operator_between_words(
    stop: Set<Seq<char>>,
    a: Seq<char>,
    op: Seq<char>,
    b: Seq<char>,
)
    requires
        lowercase_word(a),
        lowercase_word(b),
        !stop.contains(a),
        !stop.contains(b),
        two_char_operator(op),
    ensures
        tokenize_spec(stop, a + seq![' '] + op + seq![' '] + b) == seq![a, op, b],
{
    let q = a + seq![' '] + op + seq![' '] + b;
    let n = a.len();
    let m = b.len();
    let ni: int = n as int;
    assert(q.len() == n + m + 4);
    assert(q[n as int] == ' ');
    assert(q[ni + 1] == op[0]);
    assert(q[ni + 2] == op[1]);
    assert(q[ni + 3] == ' ');
    let e: Seq<char> = Seq::empty();
    let none: Seq<Seq<char>> = Seq::empty();
    assert forall|k: int| 0 <= k < a.len() implies q[0 + k] == a[k] && is_ascii_lower(
        #[trigger] a[k],
    ) by {}
    lemma_word_run(stop, q, 0, a, none, e);
    assert(e + a =~= a);
    lemma_add_word(stop, none, a);
    let t1 = seq![a];
    assert(none.push(a) =~= t1);
    assert(is_boundary_char(q[n as int]));
    assert(tokenize_from(stop, q, n, none, a) == tokenize_from(stop, q, n + 1, t1, e));
    assert(is_operator_char(q[ni + 1]));
    assert(is_operator_pair(q[ni + 1], q[ni + 2]));
    assert(seq![q[ni + 1], q[ni + 2]] =~= op);
    assert(!char_whitespace(op[0]) && !char_whitespace(op[1]));
    assert(trim_seq(op) == op);
    assert(!char_alphanumeric(op[0]) && op[0] != '_');
    let t2 = seq![a, op];
    assert(t1.push(op) =~= t2);
    assert(add_token_spec(stop, t1, op) == t2);
    assert(tokenize_from(stop, q, n + 1, t1, e) == tokenize_from(stop, q, n + 3, t2, e));
    assert(is_boundary_char(q[ni + 3]));
    assert(tokenize_from(stop, q, n + 3, t2, e) == tokenize_from(stop, q, n + 4, t2, e));
    assert forall|k: int| 0 <= k < b.len() implies q[(n + 4) + k] == b[k] && is_ascii_lower(
        #[trigger] b[k],
    ) by {}
    lemma_word_run(stop, q, n + 4, b, t2, e);
    assert(e + b =~= b);
    lemma_add_word(stop, t2, b);
    assert(t2.push(b) =~= seq![a, op, b]);
}

/// The characters that can start a code operator: `:`, `-`, `>`, `<`, `=`,
/// `!`, `&` and `|`.
pub open spec fn operator_start(c: char) -> bool {
    c == ':' || c == '-' || c == '>' || c == '<' || c == '=' || c == '!' || c == '&' || c == '|'
}

/// Law: tokens are split at spaces, and stop words are dropped: for words of
/// lowercase letters, `a b` gives `a` and `b`, and a word that is a stop word
/// gives no token at all.
pub proof fn lemma_words_split_and_stop_words_dropped(
    stop: Set<Seq<char>>,
    a: Seq<char>,
    b: Seq<char>,
)
    requires
        lowercase_word(a),
        lowercase_word(b),
        !stop.contains(a),
    ensures
        !stop.contains(b) ==> tokenize_spec(stop, a + seq![' '] + b) == seq![a, b],
        stop.contains(b) ==> tokenize_spec(stop, a + seq![' '] + b) == seq![a],
        stop.contains(b) ==> tokenize_spec(stop, b) == Seq::<Seq<char>>::empty(),
{
    let q = a + seq![' '] + b;
    let n = a.len();
    let e: Seq<char> = Seq::empty();
    let none: Seq<Seq<char>> = Seq::empty();
    assert(q[n as int] == ' ');
    assert forall|k: int| 0 <= k < a.len() implies q[0 + k] == a[k] && is_ascii_lower(
        #[trigger] a[k],
    ) by {}
    lemma_word_run(stop, q, 0, a, none, e);
    assert(e + a =~= a);
    lemma_add_word(stop, none, a);
    let t1 = seq![a];
    assert(none.push(a) =~= t1);
    assert(is_boundary_char(q[n as int]));
    assert(tokenize_from(stop, q, n, none, a) == tokenize_from(stop, q, n + 1, t1, e));
    assert forall|k: int| 0 <= k < b.len() implies q[(n + 1) + k] == b[k] && is_ascii_lower(
        #[trigger] b[k],
    ) by {}
    lemma_word_run(stop, q, n + 1, b, t1, e);
    assert(e + b =~= b);
    assert(is_ascii_lower(b[0]) && is_ascii_lower(b[b.len() - 1]));
    assert(trim_seq(b) == b);
    if stop.contains(b) {
        assert(all_alphabetic(b));
        assert(add_token_spec(stop, t1, b) == t1);
        assert forall|k: int| 0 <= k < b.len() implies b[0 + k] == b[k] && is_ascii_lower(
            #[trigger] b[k],
        ) by {}
        lemma_word_run(stop, b, 0, b, none, e);
        assert(add_token_spec(stop, none, b) == none);
    } else {
        lemma_add_word(stop, t1, b);
        assert(t1.push(b) =~= seq![a, b]);
    }
}

/// Law: a lone operator character right before a word, at the start of a
/// query, is kept as a token of its own (as in `&mut`); one that ends a word
/// (as in `world!`) is dropped.
pub proof fn lemma_single_operator_placement(stop: Set<Seq<char>>, c: char, w: Seq<char>)
    requires
        operator_start(c),
        lowercase_word(w),
        !stop.contains(w),
    ensures
        tokenize_spec(stop, seq![c] + w) == seq![seq![c], w],
        tokenize_spec(stop, w + seq![c]) == seq![w],
{
    let e: Seq<char> = Seq::empty();
    let none: Seq<Seq<char>> = Seq::empty();
    // An operator, then a word.
    let q = seq![c] + w;
    assert(q[0] == c);
    assert(q[1] == w[0]);
    assert(is_ascii_lower(w[0]));
    assert(!is_operator_pair(c, q[1]));
    assert(char_alphanumeric(q[1]));
    let op = seq![c];
    assert(seq![q[0]] =~= op);
    assert(trim_seq(op) == op);
    let t1 = seq![op];
    assert(none.push(op) =~= t1);
    assert(add_token_spec(stop, none, op) == t1);
    assert(tokenize_from(stop, q, 0, none, e) == tokenize_from(stop, q, 1, t1, e));
    assert forall|k: int| 0 <= k < w.len() implies q[1 + k] == w[k] && is_ascii_lower(
        #[trigger] w[k],
    ) by {}
    lemma_word_run(stop, q, 1, w, t1, e);
    assert(e + w =~= w);
    lemma_add_word(stop, t1, w);
    assert(t1.push(w) =~= seq![op, w]);
    // A word, then an operator.
    let r = w + seq![c];
    let n = w.len();
    assert(r[n as int] == c);
    assert forall|k: int| 0 <= k < w.len() implies r[0 + k] == w[k] && is_ascii_lower(
        #[trigger] w[k],
    ) by {}
    lemma_word_run(stop, r, 0, w, none, e);
    lemma_add_word(stop, none, w);
    assert(none.push(w) =~= seq![w]);
    assert(tokenize_from(stop, r, n, none, w) == tokenize_from(stop, r, n + 1, seq![w], e));
}

/// Query tokenizer that produces FTS-compatible tokens.
pub struct Tokenizer {
    /// Stop words to filter out (common words with low signal)
    stop_words: StringHashSet,
}

impl View for Tokenizer {
    type V = Set<Seq<char>>;

    /// The stop words.
    closed spec fn view(&self) -> Set<Seq<char>> {
        self.stop_words@
    }
}

fn is_operator_char_exec(c: char) -> (r: bool)
    ensures
        r == is_operator_char(c),
{
    c == ':' || c == '-' || c == '>' || c == '<' || c == '=' || c == '!' || c == '&' || c == '|'
}

fn is_operator_pair_exec(c: char, d: char) -> (r: bool)
    ensures
        r == is_operator_pair(c, d),
{
    (c == ':' && d == ':') || (c == '-' && d == '>') || (c == '=' && d == '>') || (c == '<' && d
        == '-') || (c == '!' && d == '=') || (c == '=' && d == '=') || (c == '<' && d == '=') || (c
        == '>' && d == '=')
}

fn is_boundary_char_exec(c: char) -> (r: bool)
    ensures
        r == is_boundary_char(c),
{
    c == ' ' || c == '\t' || c == '\n' || c == '\r' || c == ',' || c == ';' || c == '(' || c == ')'
        || c == '[' || c == ']' || c == '{' || c == '}' || c == '"' || c == '\'' || c == '*' || c
        == '/'
}

fn all_alphabetic_exec(v: &Vec<char>) -> (r: bool)
    ensures
        r == all_alphabetic(v@),
{
    let mut i: usize = 0;
    while i < v.len()
        invariant
            i <= v.len(),
            forall|j: int| 0 <= j < i ==> char_alphabetic(#[trigger] v@[j]),
        decreases v.len() - i,
    {
        if !char_is_alphabetic(v[i]) {
            return false;
        }
        i = i + 1;
    }
    true
}

impl Tokenizer {
    /// Create a new tokenizer with default stop words.
    pub fn new() -> (t: Self)
        ensures
            t@ == default_stop_word_set(),
    {
        Tokenizer { stop_words: Self::default_stop_words() }
    }

    /// Create a tokenizer with custom stop words.
    pub fn with_stop_words(stop_words: Vec<String>) -> (t: Self)
        ensures
            t@ == views(stop_words@).to_set(),
    {
        let mut set = StringHashSet::new();
        let mut i: usize = 0;
        while i < stop_words.len()
            invariant
                i <= stop_words.len(),
                set@ == views(stop_words@).take(i as int).to_set(),
            decreases stop_words.len() - i,
        {
            set.insert(stop_words[i].clone());
            proof {
                assert(views(stop_words@).take(i + 1) =~= views(stop_words@).take(i as int).push(
                    stop_words@[i as int]@,
                ));
                views(stop_words@).take(i as int).lemma_push_to_set_commute(stop_words@[i as int]@);
            }
            i = i + 1;
        }
        assert(views(stop_words@).take(stop_words.len() as int) =~= views(stop_words@));
        Tokenizer { stop_words: set }
    }

    /// Default stop words for English.
    fn default_stop_words() -> (s: StringHashSet)
        ensures
            s@ == default_stop_word_set(),
    {
        let mut s = StringHashSet::new();
        s.insert("a".to_owned());
        s.insert("an".to_owned());
        s.insert("and".to_owned());
        s.insert("are".to_owned());
        s.insert("as".to_owned());
        s.insert("at".to_owned());
        s.insert("be".to_owned());
        s.insert("by".to_owned());
        s.insert("for".to_owned());
        s.insert("from".to_owned());
        s.insert("has".to_owned());
        s.insert("he".to_owned());
        s.insert("in".to_owned());
        s.insert("is".to_owned());
        s.insert("it".to_owned());
        s.insert("its".to_owned());
        s.insert("of".to_owned());
        s.insert("on".to_owned());
        s.insert("that".to_owned());
        s.insert("the".to_owned());
        s.insert("to".to_owned());
        s.insert("was".to_owned());
        s.insert("will".to_owned());
        s.insert("with".to_owned());
        assert(s@ =~= default_stop_word_set());
        s
    }

    /// Add a token to the list, filtering stop words and empty strings.
    fn add_token(&self, tokens: &mut Vec<String>, token: &Vec<char>)
        ensures
            views(final(tokens)@) == add_token_spec(self@, views(old(tokens)@), token@),
            stop_free_tokens(self@, views(old(tokens)@)) ==> stop_free_tokens(
                self@,
                views(final(tokens)@),
            ),
    {
        let t = trim_chars(token);
        if t.len() == 0 {
            return;
        }
        let first_alnum = char_is_alphanumeric(t[0]);
        if !first_alnum && t[0] != '_' {
            tokens.push(string_of(&t));
            assert(views(tokens@) =~= views(old(tokens)@).push(t@));
            assert(!all_alphabetic(t@)) by {
                assert(!char_alphabetic(t@[0]));
            }
            proof {
                self.lemma_push_stop_free(views(old(tokens)@), t@);
            }
            return;
        }
        let s = string_of(&t);
        if all_alphabetic_exec(&t) && self.stop_words.contains(s.as_str()) {
            return;
        }
        tokens.push(s);
        assert(views(tokens@) =~= views(old(tokens)@).push(t@));
        proof {
            self.lemma_push_stop_free(views(old(tokens)@), t@);
        }
    }

    proof fn lemma_push_stop_free(&self, ts: Seq<Seq<char>>, t: Seq<char>)
        requires
            t.len() > 0,
            !(all_alphabetic(t) && self@.contains(t)),
        ensures
            stop_free_tokens(self@, ts) ==> stop_free_tokens(self@, ts.push(t)),
    {
        if stop_free_tokens(self@, ts) {
            assert forall|k: int| 0 <= k < ts.push(t).len() implies (#[trigger] ts.push(t)[k]).len()
                > 0 && !(all_alphabetic(ts.push(t)[k]) && self@.contains(ts.push(t)[k])) by {
                if k < ts.len() {
                    assert(ts.push(t)[k] == ts[k]);
                }
            }
        }
    }

    /// Tokenize a query string into FTS-compatible tokens.
    pub fn tokenize(&self, query: &str) -> (tokens: Vec<String>)
        ensures
            views(tokens@) == tokenize_spec(self@, query@),
            stop_free_tokens(self@, views(tokens@)),
    {
        let chars = chars_of(query);
        let n = chars.len();
        let mut tokens: Vec<String> = Vec::new();
        let mut current: Vec<char> = Vec::new();
        let mut i: usize = 0;
        assert(views(tokens@) =~= Seq::<Seq<char>>::empty());
        assert(current@ =~= Seq::<char>::empty());
        while i < n
            invariant
                n == chars.len(),
                chars@ == query@,
                i <= n,
                stop_free_tokens(self@, views(tokens@)),
                tokenize_spec(self@, query@) == tokenize_from(
                    self@,
                    chars@,
                    i as nat,
                    views(tokens@),
                    current@,
                ),
            decreases n - i,
        {
            let ch = chars[i];
            let ghost gi = i;
            let ghost gt = views(tokens@);
            let ghost gc = current@;
            if is_operator_char_exec(ch) {
                let had_preceding_token = current.len() > 0;
                if had_preceding_token {
                    self.add_token(&mut tokens, &current);
                    current = Vec::new();
                }
                let mut operator: Vec<char> = Vec::new();
                operator.push(ch);
                let mut is_multi_char = false;
                let ghost t1 = views(tokens@);
                assert(t1 == flush_spec(self@, gt, gc));
                if i + 1 < n {
                    let next = chars[i + 1];
                    if is_operator_pair_exec(ch, next) {
                        operator.push(next);
                        i = i + 1;
                        is_multi_char = true;
                    }
                }
                proof {
                    if is_multi_char {
                        assert(operator@ =~= seq![ch, chars@[gi + 1int]]);
                    } else {
                        assert(operator@ =~= seq![ch]);
                    }
                }
                let next_is_alnum = i + 1 < n && char_is_alphanumeric(chars[i + 1]);
                if is_multi_char || (!had_preceding_token && next_is_alnum) {
                    self.add_token(&mut tokens, &operator);
                }
                i = i + 1;
                assert(current@ =~= Seq::<char>::empty());
                assert(tokenize_from(self@, chars@, gi as nat, gt, gc) == tokenize_from(
                    self@,
                    chars@,
                    i as nat,
                    views(tokens@),
                    current@,
                ));
            } else if is_boundary_char_exec(ch) {
                if current.len() > 0 {
                    self.add_token(&mut tokens, &current);
                    current = Vec::new();
                }
                i = i + 1;
                assert(current@ =~= Seq::<char>::empty());
            } else if ch == '_' || ch == '.' {
                current.push(ch);
                i = i + 1;
            } else if char_is_alphanumeric(ch) {
                current.push(to_ascii_lower(ch));
                i = i + 1;
            } else {
                if current.len() > 0 {
                    self.add_token(&mut tokens, &current);
                    current = Vec::new();
                }
                i = i + 1;
                assert(current@ =~= Seq::<char>::empty());
            }
        }
        if current.len() > 0 {
            self.add_token(&mut tokens, &current);
        }
        tokens
    }
}

} // verus!
