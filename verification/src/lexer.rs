//! Lexical layer of the grammar engine.
//!
//! A document is a sequence of tokens separated by whitespace: unsigned
//! integer literals (which must fit in `u32`), quoted text (a `"`, any run of
//! non-quote characters, a closing `"` — the only way to write labels with
//! embedded whitespace), and bare words (maximal runs of non-whitespace not
//! opening with a quote). `spec_tokens` is the specification of the whole
//! layer: it yields `None` exactly when the document has an unterminated
//! quote or an integer literal out of `u32` range, and the executable
//! `tokenize` is proved to return exactly what it says.
use vstd::prelude::*;

verus! {

/// An executable token of the manifest's lexical grammar.
pub enum Token {
    Num(u32),
    Word(String),
    Text(String),
}

/// Specification-level token: text carried as character sequences.
pub enum TokModel {
    Num(u32),
    Word(Seq<char>),
    Text(Seq<char>),
}

impl View for Token {
    type V = TokModel;

    open spec fn view(&self) -> TokModel {
        match self {
            Token::Num(n) => TokModel::Num(*n),
            Token::Word(w) => TokModel::Word(w@),
            Token::Text(t) => TokModel::Text(t@),
        }
    }
}

pub open spec fn tok_is_num(t: TokModel) -> bool {
    match t {
        TokModel::Num(_) => true,
        _ => false,
    }
}

pub open spec fn tok_num(t: TokModel) -> u32 {
    match t {
        TokModel::Num(n) => n,
        _ => 0,
    }
}

pub open spec fn tok_is_word(t: TokModel) -> bool {
    match t {
        TokModel::Word(_) => true,
        _ => false,
    }
}

pub open spec fn tok_word(t: TokModel) -> Seq<char> {
    match t {
        TokModel::Word(w) => w,
        _ => Seq::empty(),
    }
}

pub open spec fn tok_is_text(t: TokModel) -> bool {
    match t {
        TokModel::Text(_) => true,
        _ => false,
    }
}

pub open spec fn tok_text(t: TokModel) -> Seq<char> {
    match t {
        TokModel::Text(t) => t,
        _ => Seq::empty(),
    }
}

/// View of a token vector as a sequence of specification tokens.
pub open spec fn toks_view(v: Seq<Token>) -> Seq<TokModel> {
    v.map_values(|t: Token| t@)
}

pub open spec fn is_ws_char(c: char) -> bool {
    c == ' ' || c == '\t' || c == '\n' || c == '\r'
}

pub open spec fn is_digit_char(c: char) -> bool {
    ('0' as u32) <= (c as u32) && (c as u32) <= ('9' as u32)
}

pub open spec fn digit_val(c: char) -> nat
    recommends
        is_digit_char(c),
{
    ((c as u32) - ('0' as u32)) as nat
}

pub open spec fn all_digits(s: Seq<char>) -> bool {
    forall|k: int| 0 <= k < s.len() ==> is_digit_char(#[trigger] s[k])
}

/// Value of a run of decimal digits, most significant first.
pub open spec fn digits_val(s: Seq<char>) -> nat
    decreases s.len(),
{
    if s.len() == 0 {
        0
    } else {
        digits_val(s.drop_last()) * 10 + digit_val(s.last())
    }
}

/// Length of the leading whitespace run.
pub open spec fn ws_run(s: Seq<char>) -> nat
    decreases s.len(),
{
    if s.len() > 0 && is_ws_char(s[0]) {
        (1 + ws_run(s.drop_first())) as nat
    } else {
        0
    }
}

/// Length of the leading run of non-whitespace characters.
pub open spec fn word_run(s: Seq<char>) -> nat
    decreases s.len(),
{
    if s.len() > 0 && !is_ws_char(s[0]) {
        (1 + word_run(s.drop_first())) as nat
    } else {
        0
    }
}

/// Index of the first `"` in `s`, if any.
pub open spec fn find_quote(s: Seq<char>) -> Option<nat>
    decreases s.len(),
{
    if s.len() == 0 {
        None
    } else if s[0] == '"' {
        Some(0)
    } else {
        match find_quote(s.drop_first()) {
            Some(k) => Some((k + 1) as nat),
            None => None,
        }
    }
}

/// A nonempty run of digits in `u32` range is a number token; any other
/// nonempty run is a bare word. `None` marks an out-of-range literal.
pub open spec fn classify_word(w: Seq<char>) -> Option<TokModel>
    recommends
        w.len() > 0,
{
    if all_digits(w) {
        if digits_val(w) <= u32::MAX {
            Some(TokModel::Num(digits_val(w) as u32))
        } else {
            None
        }
    } else {
        Some(TokModel::Word(w))
    }
}

/// The token sequence of a document, or `None` where lexing fails
/// (unterminated quote, or an integer literal beyond `u32`).
pub open spec fn spec_tokens(s: Seq<char>) -> Option<Seq<TokModel>>
    decreases s.len(),
{
    if s.len() == 0 {
        Some(Seq::empty())
    } else if is_ws_char(s[0]) {
        spec_tokens(s.drop_first())
    } else if s[0] == '"' {
        match find_quote(s.skip(1)) {
            Some(k) => {
                proof {
                    lemma_find_quote_in_range(s.skip(1));
                }
                let text = s.skip(1).take(k as int);
                match spec_tokens(s.skip(k as int + 2)) {
                    Some(rest) => Some(seq![TokModel::Text(text)] + rest),
                    None => None,
                }
            },
            None => None,
        }
    } else {
        let n = word_run(s);
        proof {
            lemma_word_run_in_range(s);
        }
        let w = s.take(n as int);
        match classify_word(w) {
            Some(t) => match spec_tokens(s.skip(n as int)) {
                Some(rest) => Some(seq![t] + rest),
                None => None,
            },
            None => None,
        }
    }
}

pub proof fn lemma_word_run_in_range(s: Seq<char>)
    ensures
        word_run(s) <= s.len(),
        s.len() > 0 && !is_ws_char(s[0]) ==> word_run(s) >= 1,
    decreases s.len(),
{
    if s.len() > 0 && !is_ws_char(s[0]) {
        lemma_word_run_in_range(s.drop_first());
    }
}

pub proof fn lemma_find_quote_in_range(s: Seq<char>)
    ensures
        match find_quote(s) {
            Some(k) => k < s.len() && s[k as int] == '"',
            None => true,
        },
    decreases s.len(),
{
    if s.len() > 0 && s[0] != '"' {
        lemma_find_quote_in_range(s.drop_first());
    }
}

/// The leading non-whitespace run is exactly the stretch up to the first
/// whitespace character (or the end).
pub proof fn lemma_word_run_is(s: Seq<char>, n: nat)
    requires
        n <= s.len(),
        forall|k: int| 0 <= k < n ==> !is_ws_char(#[trigger] s[k]),
        n < s.len() ==> is_ws_char(s[n as int]),
    ensures
        word_run(s) == n,
    decreases n,
{
    if n == 0 {
    } else {
        assert(!is_ws_char(s[0]));
        lemma_word_run_is(s.drop_first(), (n - 1) as nat);
    }
}

/// `find_quote` finds exactly the first quote character.
pub proof fn lemma_find_quote_is(s: Seq<char>, n: nat)
    requires
        n <= s.len(),
        forall|k: int| 0 <= k < n ==> s[k] != '"',
        n < s.len() ==> s[n as int] == '"',
    ensures
        find_quote(s) == if n < s.len() {
            Some(n)
        } else {
            None::<nat>
        },
    decreases n,
{
    if n == 0 {
    } else {
        assert(s[0] != '"');
        lemma_find_quote_is(s.drop_first(), (n - 1) as nat);
    }
}

fn ws_char(c: char) -> (b: bool)
    ensures
        b == is_ws_char(c),
{
    c == ' ' || c == '\t' || c == '\n' || c == '\r'
}

/// Classify one nonempty whitespace-delimited run: a number token if it is
/// all digits (and in range), otherwise a bare word.
fn word_token(w: &str) -> (r: Option<Token>)
    requires
        w@.len() > 0,
    ensures
        match r {
            Some(t) => classify_word(w@) == Some(t@),
            None => classify_word(w@) is None,
        },
{
    let n = w.unicode_len();
    let mut j: usize = 0;
    while j < n
        invariant
            j <= n,
            n == w@.len(),
            forall|k: int| 0 <= k < j ==> is_digit_char(#[trigger] w@[k]),
        decreases n - j,
    {
        let c = w.get_char(j);
        let u = c as u32;
        if !(('0' as u32) <= u && u <= ('9' as u32)) {
            assert(!is_digit_char(w@[j as int]));
            return Some(Token::Word(w.to_owned()));
        }
        j += 1;
    }
    assert(all_digits(w@));
    let mut val: u64 = 0;
    let mut i: usize = 0;
    while i < n
        invariant
            i <= n,
            n == w@.len(),
            all_digits(w@),
            val == digits_val(w@.take(i as int)),
            val <= u32::MAX as u64,
        decreases n - i,
    {
        let c = w.get_char(i);
        let d = ((c as u32) - ('0' as u32)) as u64;
        proof {
            assert(is_digit_char(w@[i as int]));
            assert(w@.take(i as int + 1).drop_last() =~= w@.take(i as int));
            assert(w@.take(i as int + 1).last() == w@[i as int]);
        }
        let next = val * 10 + d;
        if next > u32::MAX as u64 {
            proof {
                lemma_digits_val_prefix(w@, i as int + 1);
            }
            return None;
        }
        val = next;
        i += 1;
    }
    proof {
        assert(w@.take(n as int) =~= w@);
    }
    Some(Token::Num(val as u32))
}

/// Turn a document into its token sequence; `None` exactly where
/// `spec_tokens` fails on the document's characters.
pub fn tokenize(s: &str) -> (r: Option<Vec<Token>>)
    ensures
        match r {
            Some(toks) => spec_tokens(s@) == Some(toks_view(toks@)),
            None => spec_tokens(s@) is None,
        },
{
    let n = s.unicode_len();
    let mut toks: Vec<Token> = Vec::new();
    let mut i: usize = 0;
    proof {
        assert(s@.skip(0) =~= s@);
        assert(toks_view(toks@) =~= Seq::<TokModel>::empty());
        match spec_tokens(s@) {
            Some(rest) => {
                assert(toks_view(toks@) + rest =~= rest);
            },
            None => {},
        }
    }
    while i < n
        invariant
            i <= n,
            n == s@.len(),
            match spec_tokens(s@.skip(i as int)) {
                Some(rest) => spec_tokens(s@) == Some(toks_view(toks@) + rest),
                None => spec_tokens(s@) is None,
            },
        decreases n - i,
    {
        let ghost suffix = s@.skip(i as int);
        assert(suffix.len() == n - i);
        assert(suffix[0] == s@[i as int]);
        let c = s.get_char(i);
        if ws_char(c) {
            proof {
                assert(suffix.drop_first() =~= s@.skip(i as int + 1));
            }
            i += 1;
        } else if c == '"' {
            let mut j = i + 1;
            while j < n && s.get_char(j) != '"'
                invariant
                    i + 1 <= j <= n,
                    n == s@.len(),
                    forall|k: int| i + 1 <= k < j ==> s@[k] != '"',
                decreases n - j,
            {
                j += 1;
            }
            proof {
                assert(suffix.skip(1) =~= s@.skip(i as int + 1));
                assert forall|k: int| 0 <= k < j - i - 1 implies #[trigger] s@.skip(
                    i as int + 1,
                )[k] != '"' by {
                    assert(s@.skip(i as int + 1)[k] == s@[k + i + 1]);
                }
                lemma_find_quote_is(s@.skip(i as int + 1), (j - i - 1) as nat);
            }
            if j == n {
                assert(find_quote(suffix.skip(1)) is None);
                assert(spec_tokens(suffix) is None);
                return None;
            }
            assert(s@[j as int] == '"');
            assert(find_quote(suffix.skip(1)) == Some((j - i - 1) as nat));
            let text = s.substring_char(i + 1, j);
            let tok = Token::Text(text.to_owned());
            proof {
                let k = (j - i - 1) as nat;
                assert(suffix.skip(1).take(k as int) =~= s@.subrange(i as int + 1, j as int));
                assert(suffix.skip(k as int + 2) =~= s@.skip(j as int + 1));
                assert(tok@ == TokModel::Text(s@.subrange(i as int + 1, j as int)));
                assert(spec_tokens(suffix) == match spec_tokens(s@.skip(j as int + 1)) {
                    Some(rest) => Some(seq![tok@] + rest),
                    None => None::<Seq<TokModel>>,
                });
                match spec_tokens(s@.skip(j as int + 1)) {
                    Some(rest) => {
                        assert(toks_view(toks@.push(tok)) =~= toks_view(toks@).push(tok@));
                        assert(toks_view(toks@) + (seq![tok@] + rest) =~= toks_view(
                            toks@.push(tok),
                        ) + rest);
                    },
                    None => {},
                }
            }
            toks.push(tok);
            i = j + 1;
        } else {
            let mut j = i;
            while j < n && !ws_char(s.get_char(j))
                invariant
                    i <= j <= n,
                    n == s@.len(),
                    forall|k: int| i <= k < j ==> !is_ws_char(#[trigger] s@[k]),
                decreases n - j,
            {
                j += 1;
            }
            proof {
                assert forall|k: int| 0 <= k < j - i implies !is_ws_char(
                    #[trigger] suffix[k],
                ) by {
                    assert(suffix[k] == s@[k + i]);
                }
                lemma_word_run_is(suffix, (j - i) as nat);
                assert(word_run(suffix) == j - i);
                assert(j > i);
            }
            let w = s.substring_char(i, j);
            proof {
                assert(suffix.take(j - i) =~= s@.subrange(i as int, j as int));
                assert(w@ == suffix.take(word_run(suffix) as int));
            }
            match word_token(w) {
                Some(t) => {
                    proof {
                        assert(suffix.skip(j - i) =~= s@.skip(j as int));
                        assert(spec_tokens(suffix) == match spec_tokens(s@.skip(j as int)) {
                            Some(rest) => Some(seq![t@] + rest),
                            None => None::<Seq<TokModel>>,
                        });
                        match spec_tokens(s@.skip(j as int)) {
                            Some(rest) => {
                                assert(toks_view(toks@.push(t)) =~= toks_view(toks@).push(t@));
                                assert(toks_view(toks@) + (seq![t@] + rest) =~= toks_view(
                                    toks@.push(t),
                                ) + rest);
                            },
                            None => {},
                        }
                    }
                    toks.push(t);
                    i = j;
                },
                None => {
                    assert(classify_word(suffix.take(word_run(suffix) as int)) is None);
                    assert(spec_tokens(suffix) is None);
                    return None;
                },
            }
        }
    }
    proof {
        assert(s@.skip(n as int).len() == 0);
        assert(spec_tokens(s@.skip(n as int)) == Some(Seq::<TokModel>::empty()));
        assert(toks_view(toks@) + Seq::<TokModel>::empty() =~= toks_view(toks@));
    }
    Some(toks)
}

/// A digit run's value never shrinks when the run is extended.
pub proof fn lemma_digits_val_prefix(s: Seq<char>, j: int)
    requires
        0 <= j <= s.len(),
    ensures
        digits_val(s.take(j)) <= digits_val(s),
    decreases s.len() - j,
{
    if j == s.len() {
        assert(s.take(j) =~= s);
    } else {
        lemma_digits_val_prefix(s, j + 1);
        assert(s.take(j + 1).drop_last() =~= s.take(j));
        assert(s.take(j + 1).last() == s[j]);
        assert(digits_val(s.take(j + 1)) == digits_val(s.take(j)) * 10 + digit_val(s[j]));
    }
}

} // verus!
