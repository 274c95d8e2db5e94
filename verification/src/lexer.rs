use vstd::prelude::*;

use crate::cursor::{spec_pos_at, SourceCursor};
use crate::error::{CompilerError, ErrorType, ErrorView};
use crate::position::Position;
use crate::text::{
    check_real_lexeme, count_dots, is_alnum, is_alpha, is_digit, is_ws, parse_int_lexeme,
    spec_digits_val, spec_dot_count, spec_is_alnum, spec_is_alpha, spec_is_digit,
    spec_is_valid_int, spec_is_valid_real, spec_is_ws, spec_lower_seq, str_eq_ignore_case,
};
use crate::token::{Token, TokenType, TokenTypeView, TokenView};

verus! {

/// The first index at or after `i` where `p` fails, or the end of `s`.
pub open spec fn spec_seek(s: Seq<char>, i: int, p: spec_fn(char) -> bool) -> int
    decreases s.len() - i,
{
    if 0 <= i && i < s.len() && p(s[i]) {
        spec_seek(s, i + 1, p)
    } else {
        i
    }
}

/// A scan that stops exactly where `p` first fails is the seek.
pub proof fn lemma_seek_is(s: Seq<char>, i: int, j: int, p: spec_fn(char) -> bool)
    requires
        0 <= i <= j <= s.len(),
        forall|k: int| i <= k < j ==> p(#[trigger] s[k]),
        j == s.len() || !p(s[j]),
    ensures
        spec_seek(s, i, p) == j,
    decreases j - i,
{
    if i < j {
        lemma_seek_is(s, i + 1, j, p);
    }
}

/// The seek stays between its start and the end of the text, everything it
/// passed satisfies `p`, and where it stopped short of the end `p` fails.
pub proof fn lemma_seek_bounds(s: Seq<char>, i: int, p: spec_fn(char) -> bool)
    requires
        0 <= i <= s.len(),
    ensures
        i <= spec_seek(s, i, p) <= s.len(),
        forall|k: int| i <= k < spec_seek(s, i, p) ==> p(#[trigger] s[k]),
        spec_seek(s, i, p) < s.len() ==> !p(s[spec_seek(s, i, p)]),
    decreases s.len() - i,
{
    if i < s.len() && p(s[i]) {
        lemma_seek_bounds(s, i + 1, p);
    }
}

/// A character that continues a number scan: alphanumeric or a dot.
pub open spec fn spec_is_num_cont(c: char) -> bool {
    spec_is_alnum(c) || c == '.'
}

/// One step of the lexer: what it hands out (`None` at the end of input) and
/// the index at which the next step starts.
pub struct LexStep {
    pub out: Option<Result<TokenView, ErrorView>>,
    pub next: int,
}

/// The keyword token for a lower-case word, if the word is one of the fixed
/// keyword set.
pub open spec fn spec_keyword_token(w: Seq<char>) -> Option<TokenTypeView> {
    if w == "div"@ {
        Some(TokenTypeView::DivOp)
    } else if w == "mod"@ {
        Some(TokenTypeView::ModOp)
    } else if w == "if"@ {
        Some(TokenTypeView::IfKeyword)
    } else if w == "else"@ {
        Some(TokenTypeView::ElseKeyword)
    } else if w == "then"@ {
        Some(TokenTypeView::ThenKeyword)
    } else if w == "or"@ {
        Some(TokenTypeView::OrOp)
    } else if w == "and"@ {
        Some(TokenTypeView::AndOp)
    } else if w == "while"@ {
        Some(TokenTypeView::WhileKeyword)
    } else if w == "do"@ {
        Some(TokenTypeView::DoKeyword)
    } else if w == "type"@ {
        Some(TokenTypeView::TypeKeyword)
    } else if w == "program"@ {
        Some(TokenTypeView::ProgramKeyword)
    } else if w == "begin"@ {
        Some(TokenTypeView::BeginKeyword)
    } else if w == "end"@ {
        Some(TokenTypeView::EndKeyword)
    } else if w == "var"@ {
        Some(TokenTypeView::VarKeyword)
    } else {
        None
    }
}

/// Scan a numeric literal starting at the digit at `st`: the span runs while
/// characters are alphanumeric or a dot; a span with a dot must be a valid
/// real literal, one without must be a valid integer literal.
pub open spec fn spec_scan_number(s: Seq<char>, st: int) -> LexStep {
    let end = spec_seek(s, st, |c: char| spec_is_num_cont(c));
    let lx = s.subrange(st, end);
    let pos = spec_pos_at(s, st);
    let out = if spec_dot_count(lx) > 0 {
        if spec_is_valid_real(lx) {
            Ok(TokenView { token: TokenTypeView::Real(lx), pos })
        } else {
            Err(
                ErrorView {
                    description: "Invalid real literal "@ + lx,
                    pos,
                    err_type: ErrorType::Lexical,
                },
            )
        }
    } else {
        if spec_is_valid_int(lx) {
            Ok(TokenView { token: TokenTypeView::Integer(spec_digits_val(lx)), pos })
        } else {
            Err(
                ErrorView {
                    description: "Invalid int literal "@ + lx,
                    pos,
                    err_type: ErrorType::Lexical,
                },
            )
        }
    };
    LexStep { out: Some(out), next: end }
}

/// Scan a word starting at the letter at `st`: the span runs while
/// characters are alphanumeric; a keyword match is case-insensitive, any
/// other word is an identifier keeping its original case.
pub open spec fn spec_scan_word(s: Seq<char>, st: int) -> LexStep {
    let end = spec_seek(s, st, |c: char| spec_is_alnum(c));
    let lx = s.subrange(st, end);
    let pos = spec_pos_at(s, st);
    let kind = match spec_keyword_token(spec_lower_seq(lx)) {
        Some(k) => k,
        None => TokenTypeView::Identifier(lx),
    };
    LexStep { out: Some(Ok(TokenView { token: kind, pos })), next: end }
}

/// Scan an operator at `st`: `+ - * =` stand alone, `:` `>` `<` look one
/// character ahead for `:= >= <= <>`.
pub open spec fn spec_scan_operator(s: Seq<char>, st: int) -> LexStep {
    let c = s[st];
    let pos = spec_pos_at(s, st);
    if c == '+' {
        LexStep { out: Some(Ok(TokenView { token: TokenTypeView::PlusOp, pos })), next: st + 1 }
    } else if c == '-' {
        LexStep { out: Some(Ok(TokenView { token: TokenTypeView::MinusOp, pos })), next: st + 1 }
    } else if c == '*' {
        LexStep { out: Some(Ok(TokenView { token: TokenTypeView::MulOp, pos })), next: st + 1 }
    } else if c == ':' {
        if st + 1 < s.len() && s[st + 1] == '=' {
            LexStep { out: Some(Ok(TokenView { token: TokenTypeView::AssignOp, pos })), next: st + 2 }
        } else {
            LexStep { out: Some(Ok(TokenView { token: TokenTypeView::Colon, pos })), next: st + 1 }
        }
    } else if c == '=' {
        LexStep { out: Some(Ok(TokenView { token: TokenTypeView::Eq, pos })), next: st + 1 }
    } else if c == '>' {
        if st + 1 < s.len() && s[st + 1] == '=' {
            LexStep { out: Some(Ok(TokenView { token: TokenTypeView::BiggerEq, pos })), next: st + 2 }
        } else {
            LexStep { out: Some(Ok(TokenView { token: TokenTypeView::Bigger, pos })), next: st + 1 }
        }
    } else if c == '<' {
        if st + 1 < s.len() && s[st + 1] == '=' {
            LexStep { out: Some(Ok(TokenView { token: TokenTypeView::LessEq, pos })), next: st + 2 }
        } else if st + 1 < s.len() && s[st + 1] == '>' {
            LexStep { out: Some(Ok(TokenView { token: TokenTypeView::UnEq, pos })), next: st + 2 }
        } else {
            LexStep { out: Some(Ok(TokenView { token: TokenTypeView::Less, pos })), next: st + 1 }
        }
    } else {
        LexStep {
            out: Some(
                Err(
                    ErrorView {
                        description: "Invalid operator"@,
                        pos,
                        err_type: ErrorType::Lexical,
                    },
                ),
            ),
            next: st + 1,
        }
    }
}

/// Scan a punctuation symbol or string literal at `st`. An unterminated
/// string is a lexical error that consumes the rest of the input; an
/// unsupported character is a lexical error that consumes that character.
pub open spec fn spec_scan_symbol(s: Seq<char>, st: int) -> LexStep {
    let c = s[st];
    let pos = spec_pos_at(s, st);
    if c == ';' {
        LexStep { out: Some(Ok(TokenView { token: TokenTypeView::Semicolon, pos })), next: st + 1 }
    } else if c == '.' {
        LexStep { out: Some(Ok(TokenView { token: TokenTypeView::Period, pos })), next: st + 1 }
    } else if c == '(' {
        LexStep { out: Some(Ok(TokenView { token: TokenTypeView::LBrace, pos })), next: st + 1 }
    } else if c == ')' {
        LexStep { out: Some(Ok(TokenView { token: TokenTypeView::RBrace, pos })), next: st + 1 }
    } else if c == ',' {
        LexStep { out: Some(Ok(TokenView { token: TokenTypeView::Comma, pos })), next: st + 1 }
    } else if c == '\'' {
        let qe = spec_seek(s, st + 1, |x: char| x != '\'');
        if qe < s.len() {
            LexStep {
                out: Some(
                    Ok(TokenView { token: TokenTypeView::StringLiteral(s.subrange(st + 1, qe)), pos }),
                ),
                next: qe + 1,
            }
        } else {
            LexStep {
                out: Some(
                    Err(
                        ErrorView {
                            description: "Invalid string literal"@,
                            pos,
                            err_type: ErrorType::Lexical,
                        },
                    ),
                ),
                next: s.len() as int,
            }
        }
    } else {
        LexStep {
            out: Some(
                Err(
                    ErrorView {
                        description: "Unsupported symbol "@ + s.subrange(st, st + 1),
                        pos,
                        err_type: ErrorType::Lexical,
                    },
                ),
            ),
            next: st + 1,
        }
    }
}

/// True of the characters the operator scanner handles.
pub open spec fn spec_is_op_char(c: char) -> bool {
    c == '+' || c == '-' || c == '*' || c == ':' || c == '=' || c == '>' || c == '<'
}

/// One whole step of the lexer from index `i`: skip whitespace, then
/// dispatch on the first remaining character; at the end of the text the
/// step hands out nothing.
pub open spec fn spec_next_token(s: Seq<char>, i: int) -> LexStep {
    let st = spec_seek(s, i, |c: char| spec_is_ws(c));
    if st >= s.len() {
        LexStep { out: None, next: st }
    } else if spec_is_digit(s[st]) {
        spec_scan_number(s, st)
    } else if spec_is_alpha(s[st]) {
        spec_scan_word(s, st)
    } else if spec_is_op_char(s[st]) {
        spec_scan_operator(s, st)
    } else {
        spec_scan_symbol(s, st)
    }
}

/// Every lexer step lands inside the text, consumes at least one character
/// when it hands a token or error out, and stands at the end when it hands
/// out nothing.
pub proof fn lemma_next_token_progress(s: Seq<char>, i: int)
    requires
        0 <= i <= s.len(),
    ensures
        i <= spec_next_token(s, i).next <= s.len(),
        spec_next_token(s, i).out is Some ==> spec_next_token(s, i).next > i,
        spec_next_token(s, i).out is None ==> spec_next_token(s, i).next == s.len(),
{
    let ws = |c: char| spec_is_ws(c);
    lemma_seek_bounds(s, i, ws);
    let st = spec_seek(s, i, ws);
    if st < s.len() {
        if spec_is_digit(s[st]) {
            lemma_seek_bounds(s, st, |c: char| spec_is_num_cont(c));
            assert(spec_seek(s, st, |c: char| spec_is_num_cont(c)) > st) by {
                assert((|c: char| spec_is_num_cont(c))(s[st]));
            }
        } else if spec_is_alpha(s[st]) {
            lemma_seek_bounds(s, st, |c: char| spec_is_alnum(c));
            assert(spec_seek(s, st, |c: char| spec_is_alnum(c)) > st) by {
                assert((|c: char| spec_is_alnum(c))(s[st]));
            }
        } else if spec_is_op_char(s[st]) {
        } else if s[st] == '\'' {
            lemma_seek_bounds(s, st + 1, |x: char| x != '\'');
        } else {
        }
    }
}

/// The position a lexer item carries: a token's first character, or the
/// place a lexical error was found.
pub open spec fn spec_result_pos(x: Result<TokenView, ErrorView>) -> Position {
    match x {
        Ok(t) => t.pos,
        Err(e) => e.pos,
    }
}

/// A run of the lexer over `s` producing `out`, witnessed by the start index
/// of each step: step `k` starts at `idxs[k]`, hands out `out[k]`, and ends
/// at `idxs[k + 1]`; the step after the last item hands out nothing.
pub open spec fn spec_lex_chain(
    s: Seq<char>,
    out: Seq<Result<TokenView, ErrorView>>,
    idxs: Seq<int>,
) -> bool {
    &&& idxs.len() == out.len() + 1
    &&& idxs[0] == 0
    &&& forall|k: int|
        0 <= k < out.len() ==> {
            &&& spec_next_token(s, #[trigger] idxs[k]).out == Some(out[k])
            &&& spec_next_token(s, idxs[k]).next == idxs[k + 1]
        }
    &&& spec_next_token(s, idxs[out.len() as int]).out is None
}

/// `out` is exactly what lexing `s` from the start produces.
pub open spec fn spec_is_lex_of(s: Seq<char>, out: Seq<Result<TokenView, ErrorView>>) -> bool {
    exists|idxs: Seq<int>| spec_lex_chain(s, out, idxs)
}

/// The views of a sequence of lexer results.
pub open spec fn spec_results_view(rs: Seq<Result<Token, CompilerError>>) -> Seq<
    Result<TokenView, ErrorView>,
> {
    rs.map_values(
        |x: Result<Token, CompilerError>|
            match x {
                Ok(t) => Result::<TokenView, ErrorView>::Ok(t@),
                Err(e) => Result::<TokenView, ErrorView>::Err(e@),
            },
    )
}

/// What a step hands out carries the position of the first character after
/// the skipped whitespace, which lies between the step's start and its end.
proof fn lemma_next_token_pos(s: Seq<char>, i: int)
    requires
        0 <= i <= s.len(),
        spec_next_token(s, i).out is Some,
    ensures
        ({
            let st = spec_seek(s, i, |c: char| spec_is_ws(c));
            &&& i <= st <= s.len()
            &&& st <= spec_next_token(s, i).next
            &&& spec_result_pos(spec_next_token(s, i).out.unwrap()) == spec_pos_at(s, st)
        }),
{
    let ws = |c: char| spec_is_ws(c);
    lemma_seek_bounds(s, i, ws);
    let st = spec_seek(s, i, ws);
    if st < s.len() {
        if spec_is_digit(s[st]) {
            lemma_seek_bounds(s, st, |c: char| spec_is_num_cont(c));
        } else if spec_is_alpha(s[st]) {
            lemma_seek_bounds(s, st, |c: char| spec_is_alnum(c));
        } else if spec_is_op_char(s[st]) {
        } else if s[st] == '\'' {
            lemma_seek_bounds(s, st + 1, |x: char| x != '\'');
        } else {
        }
    }
}

/// Every step start recorded in a lexing chain lies inside the text, and the
/// starts never decrease.
proof fn lemma_chain_idx(
    s: Seq<char>,
    out: Seq<Result<TokenView, ErrorView>>,
    idxs: Seq<int>,
    k: int,
)
    requires
        spec_lex_chain(s, out, idxs),
        0 <= k <= out.len(),
    ensures
        0 <= idxs[k] <= s.len(),
        forall|j: int| 0 <= j <= k ==> #[trigger] idxs[j] <= idxs[k],
    decreases k,
{
    if k > 0 {
        lemma_chain_idx(s, out, idxs, k - 1);
        lemma_next_token_progress(s, idxs[k - 1]);
    }
}

/// The item at position `k` of a lexing chain carries the position of the
/// text index where its token starts, which lies between the step's start
/// and its end.
#[verifier::spinoff_prover]
proof fn lemma_chain_item_pos(
    s: Seq<char>,
    out: Seq<Result<TokenView, ErrorView>>,
    idxs: Seq<int>,
    k: int,
)
    requires
        spec_lex_chain(s, out, idxs),
        0 <= k < out.len(),
    ensures
        ({
            let st = spec_seek(s, idxs[k], |c: char| spec_is_ws(c));
            &&& idxs[k] <= st <= s.len()
            &&& st <= idxs[k + 1]
            &&& spec_result_pos(out[k]) == spec_pos_at(s, st)
        }),
{
    lemma_chain_idx(s, out, idxs, k);
    lemma_next_token_pos(s, idxs[k]);
}

/// Two items of a lexing chain, in order, carry positions in order.
#[verifier::spinoff_prover]
proof fn lemma_chain_pos_pair(
    s: Seq<char>,
    out: Seq<Result<TokenView, ErrorView>>,
    idxs: Seq<int>,
    p: int,
    q: int,
)
    requires
        s.len() < usize::MAX,
        spec_lex_chain(s, out, idxs),
        0 <= p <= q < out.len(),
    ensures
        spec_result_pos(out[p]).spec_le(spec_result_pos(out[q])),
    decreases q - p,
{
    let ws = |c: char| spec_is_ws(c);
    if p == q {
        lemma_chain_item_pos(s, out, idxs, p);
    } else {
        lemma_chain_pos_pair(s, out, idxs, p, q - 1);
        lemma_chain_item_pos(s, out, idxs, q - 1);
        lemma_chain_item_pos(s, out, idxs, q);
        lemma_chain_idx(s, out, idxs, q - 1);
        lemma_chain_idx(s, out, idxs, q);
        let sta = spec_seek(s, idxs[q - 1], ws);
        let stb = spec_seek(s, idxs[q], ws);
        assert(idxs[q - 1 + 1] <= idxs[q]);
        assert(sta <= stb);
        crate::cursor::lemma_pos_monotonic(s, sta, stb);
        crate::cursor::lemma_pos_bounds(s, sta);
        crate::cursor::lemma_pos_bounds(s, stb);
    }
}

/// Lexing law: the source positions carried by the items of a lexing run
/// never decrease in (line, column) order.
#[verifier::spinoff_prover]
pub proof fn lemma_lex_positions_monotonic(
    s: Seq<char>,
    out: Seq<Result<TokenView, ErrorView>>,
)
    requires
        s.len() < usize::MAX,
        spec_is_lex_of(s, out),
    ensures
        forall|p: int, q: int|
            0 <= p <= q < out.len() ==> spec_result_pos(#[trigger] out[p]).spec_le(
                spec_result_pos(#[trigger] out[q]),
            ),
{
    let idxs = choose|idxs: Seq<int>| spec_lex_chain(s, out, idxs);
    assert forall|p: int, q: int| 0 <= p <= q < out.len() implies spec_result_pos(
        #[trigger] out[p],
    ).spec_le(spec_result_pos(#[trigger] out[q])) by {
        lemma_chain_pos_pair(s, out, idxs, p, q);
    }
}

/// Two lexing chains over the same text agree on their step starts and
/// their items as far as both reach.
proof fn lemma_chain_prefix_eq(
    s: Seq<char>,
    out1: Seq<Result<TokenView, ErrorView>>,
    idxs1: Seq<int>,
    out2: Seq<Result<TokenView, ErrorView>>,
    idxs2: Seq<int>,
    k: int,
)
    requires
        spec_lex_chain(s, out1, idxs1),
        spec_lex_chain(s, out2, idxs2),
        0 <= k <= out1.len(),
        k <= out2.len(),
    ensures
        idxs1[k] == idxs2[k],
        forall|j: int| 0 <= j < k ==> out1[j] == out2[j],
    decreases k,
{
    if k > 0 {
        lemma_chain_prefix_eq(s, out1, idxs1, out2, idxs2, k - 1);
        assert(spec_next_token(s, idxs1[k - 1]).out == Some(out1[k - 1]));
        assert(spec_next_token(s, idxs2[k - 1]).out == Some(out2[k - 1]));
    }
}

/// Lexing law: a text has exactly one lexing; what `lex` hands back is the
/// only sequence of items that a run of the lexer over that text can
/// produce.
pub proof fn lemma_lex_deterministic(
    s: Seq<char>,
    out1: Seq<Result<TokenView, ErrorView>>,
    out2: Seq<Result<TokenView, ErrorView>>,
)
    requires
        spec_is_lex_of(s, out1),
        spec_is_lex_of(s, out2),
    ensures
        out1 == out2,
{
    let idxs1 = choose|idxs: Seq<int>| spec_lex_chain(s, out1, idxs);
    let idxs2 = choose|idxs: Seq<int>| spec_lex_chain(s, out2, idxs);
    if out1.len() < out2.len() {
        let m = out1.len() as int;
        lemma_chain_prefix_eq(s, out1, idxs1, out2, idxs2, m);
        assert(spec_next_token(s, idxs1[m]).out is None);
        assert(spec_next_token(s, idxs2[m]).out == Some(out2[m]));
        assert(false);
    } else if out2.len() < out1.len() {
        let m = out2.len() as int;
        lemma_chain_prefix_eq(s, out2, idxs2, out1, idxs1, m);
        assert(spec_next_token(s, idxs2[m]).out is None);
        assert(spec_next_token(s, idxs1[m]).out == Some(out1[m]));
        assert(false);
    } else {
        lemma_chain_prefix_eq(s, out1, idxs1, out2, idxs2, out1.len() as int);
        assert(out1 =~= out2);
    }
}

/// Lex a whole source text: the sequence of tokens and lexical errors that
/// repeated `next_token` calls produce, in order. The source positions the
/// items carry never decrease in (line, column) order.
pub fn lex(text: &str) -> (r: Vec<Result<Token, CompilerError>>)
    requires
        text@.len() < usize::MAX,
    ensures
        spec_is_lex_of(text@, spec_results_view(r@)),
        forall|p: int, q: int|
            0 <= p <= q < r@.len() ==> spec_result_pos(
                #[trigger] spec_results_view(r@)[p],
            ).spec_le(spec_result_pos(#[trigger] spec_results_view(r@)[q])),
{
    let cursor = SourceCursor::new(String::from_str(text));
    let mut lexer = Lexer::new(cursor);
    let mut out: Vec<Result<Token, CompilerError>> = Vec::new();
    let ghost mut idxs: Seq<int> = seq![0int];
    loop
        invariant_except_break
            lexer.inv(),
            lexer.text() == text@,
            idxs.len() == out@.len() + 1,
            idxs[0] == 0,
            idxs.last() == lexer.idx(),
            forall|k: int|
                0 <= k < out@.len() ==> {
                    &&& spec_next_token(text@, #[trigger] idxs[k]).out == Some(
                        spec_results_view(out@)[k],
                    )
                    &&& spec_next_token(text@, idxs[k]).next == idxs[k + 1]
                },
        ensures
            spec_lex_chain(text@, spec_results_view(out@), idxs),
        decreases text@.len() - lexer.idx(),
    {
        let ghost old_out = out@;
        let step = lexer.next_token();
        match step {
            Some(x) => {
                out.push(x);
                proof {
                    idxs = idxs.push(lexer.idx());
                    assert(spec_results_view(out@) =~= spec_results_view(old_out).push(
                        match x {
                            Ok(t) => Result::<TokenView, ErrorView>::Ok(t@),
                            Err(e) => Result::<TokenView, ErrorView>::Err(e@),
                        },
                    ));
                }
            },
            None => {
                break ;
            },
        }
    }
    proof {
        assert(spec_lex_chain(text@, spec_results_view(out@), idxs));
        lemma_lex_positions_monotonic(text@, spec_results_view(out@));
    }
    out
}

/// Every error a lexer step hands out is a lexical error.
pub proof fn lemma_next_token_err_kind(s: Seq<char>, i: int)
    ensures
        match spec_next_token(s, i).out {
            Some(Err(ev)) => ev.err_type == ErrorType::Lexical,
            _ => true,
        },
{
    let st = spec_seek(s, i, |c: char| spec_is_ws(c));
    if st < s.len() {
        if spec_is_digit(s[st]) {
            assert(spec_next_token(s, i) == spec_scan_number(s, st));
            assert(spec_scan_number(s, st).out matches Some(o) && o matches Err(ev)
                ==> ev.err_type == ErrorType::Lexical);
        } else if spec_is_alpha(s[st]) {
            assert(spec_next_token(s, i) == spec_scan_word(s, st));
            assert(spec_scan_word(s, st).out matches Some(o) && o matches Err(ev) ==> ev.err_type
                == ErrorType::Lexical);
        } else if spec_is_op_char(s[st]) {
            assert(spec_next_token(s, i) == spec_scan_operator(s, st));
            assert(spec_scan_operator(s, st).out matches Some(o) && o matches Err(ev)
                ==> ev.err_type == ErrorType::Lexical);
        } else {
            assert(spec_next_token(s, i) == spec_scan_symbol(s, st));
            assert(spec_scan_symbol(s, st).out matches Some(o) && o matches Err(ev)
                ==> ev.err_type == ErrorType::Lexical);
        }
    } else {
        assert(spec_next_token(s, i).out is None);
    }
}

/// The lexer: turns the cursor's character stream into a finite sequence of
/// tokens and lexical errors, one `next_token` call per item.
pub struct Lexer {
    pub chars: SourceCursor,
}

impl Lexer {
    pub open spec fn inv(self) -> bool {
        self.chars.inv()
    }

    pub open spec fn text(self) -> Seq<char> {
        self.chars.text@
    }

    pub open spec fn idx(self) -> int {
        self.chars.idx as int
    }

    pub fn new(chars: SourceCursor) -> (r: Self)
        ensures
            r.chars == chars,
    {
        Self { chars }
    }

    /// Whether the current character exists and continues a whitespace run.
    fn at_ws(&self) -> (r: bool)
        requires
            self.inv(),
        ensures
            r == (self.idx() < self.text().len() && spec_is_ws(self.text()[self.idx()])),
    {
        match self.chars.current() {
            Some(c) => is_ws(c),
            None => false,
        }
    }

    /// Whether the current character exists and continues a number scan.
    fn at_num_cont(&self) -> (r: bool)
        requires
            self.inv(),
        ensures
            r == (self.idx() < self.text().len() && spec_is_num_cont(self.text()[self.idx()])),
    {
        match self.chars.current() {
            Some(c) => is_alnum(c) || c == '.',
            None => false,
        }
    }

    /// Whether the current character exists and continues a word scan.
    fn at_alnum(&self) -> (r: bool)
        requires
            self.inv(),
        ensures
            r == (self.idx() < self.text().len() && spec_is_alnum(self.text()[self.idx()])),
    {
        match self.chars.current() {
            Some(c) => is_alnum(c),
            None => false,
        }
    }

    /// Whether the current character exists and is not a closing quote.
    fn at_not_quote(&self) -> (r: bool)
        requires
            self.inv(),
        ensures
            r == (self.idx() < self.text().len() && self.text()[self.idx()] != '\''),
    {
        match self.chars.current() {
            Some(c) => c != '\'',
            None => false,
        }
    }

    /// Skip the whitespace run at the cursor.
    fn skip_ws(&mut self)
        requires
            old(self).inv(),
        ensures
            final(self).inv(),
            final(self).text() == old(self).text(),
            final(self).idx() == spec_seek(old(self).text(), old(self).idx(), |c: char| spec_is_ws(c)),
    {
        let ghost s = self.text();
        let ghost i0 = self.idx();
        while self.at_ws()
            invariant
                self.inv(),
                self.text() == s,
                0 <= i0 <= self.idx() <= s.len(),
                forall|k: int| i0 <= k < self.idx() ==> spec_is_ws(#[trigger] s[k]),
            decreases s.len() - self.idx(),
        {
            self.chars.advance();
        }
        proof {
            lemma_seek_is(s, i0, self.idx(), |c: char| spec_is_ws(c));
        }
    }

    /// Scan the numeric literal at the cursor and classify it as an integer
    /// literal, a real literal, or a malformed literal.
    fn number(&mut self) -> (r: Result<Token, CompilerError>)
        requires
            old(self).inv(),
            old(self).idx() < old(self).text().len(),
            spec_is_digit(old(self).text()[old(self).idx()]),
        ensures
            final(self).inv(),
            final(self).text() == old(self).text(),
            ({
                let step = spec_scan_number(old(self).text(), old(self).idx());
                &&& final(self).idx() == step.next
                &&& match r {
                    Ok(t) => step.out == Some(Result::<TokenView, ErrorView>::Ok(t@)),
                    Err(e) => step.out == Some(Result::<TokenView, ErrorView>::Err(e@)),
                }
            }),
    {
        let ghost s = self.text();
        let ghost st = self.idx();
        let pos = self.chars.position();
        let start = self.chars.idx;
        while self.at_num_cont()
            invariant
                self.inv(),
                self.text() == s,
                start == st,
                0 <= st <= self.idx() <= s.len(),
                forall|k: int| st <= k < self.idx() ==> spec_is_num_cont(#[trigger] s[k]),
            decreases s.len() - self.idx(),
        {
            self.chars.advance();
        }
        proof {
            lemma_seek_is(s, st, self.idx(), |c: char| spec_is_num_cont(c));
        }
        let lx = self.chars.substring(start, self.chars.idx);
        let dots = count_dots(lx.as_str());
        if dots > 0 {
            if check_real_lexeme(lx.as_str()) {
                Ok(Token::new(TokenType::Real(lx), pos))
            } else {
                Err(
                    CompilerError::lexical(
                        String::from_str("Invalid real literal ").concat(lx.as_str()),
                        pos,
                    ),
                )
            }
        } else {
            match parse_int_lexeme(lx.as_str()) {
                Some(v) => Ok(Token::new(TokenType::Integer(v), pos)),
                None => Err(
                    CompilerError::lexical(
                        String::from_str("Invalid int literal ").concat(lx.as_str()),
                        pos,
                    ),
                ),
            }
        }
    }

    /// Scan the word at the cursor: a case-insensitive keyword, or an
    /// identifier keeping its original case.
    fn maybe_keyword(&mut self) -> (r: Result<Token, CompilerError>)
        requires
            old(self).inv(),
            old(self).idx() < old(self).text().len(),
            spec_is_alpha(old(self).text()[old(self).idx()]),
        ensures
            final(self).inv(),
            final(self).text() == old(self).text(),
            ({
                let step = spec_scan_word(old(self).text(), old(self).idx());
                &&& final(self).idx() == step.next
                &&& match r {
                    Ok(t) => step.out == Some(Result::<TokenView, ErrorView>::Ok(t@)),
                    Err(e) => step.out == Some(Result::<TokenView, ErrorView>::Err(e@)),
                }
            }),
    {
        let ghost s = self.text();
        let ghost st = self.idx();
        let pos = self.chars.position();
        let start = self.chars.idx;
        while self.at_alnum()
            invariant
                self.inv(),
                self.text() == s,
                start == st,
                0 <= st <= self.idx() <= s.len(),
                forall|k: int| st <= k < self.idx() ==> spec_is_alnum(#[trigger] s[k]),
            decreases s.len() - self.idx(),
        {
            self.chars.advance();
        }
        proof {
            lemma_seek_is(s, st, self.idx(), |c: char| spec_is_alnum(c));
        }
        let lx = self.chars.substring(start, self.chars.idx);
        let kind = if str_eq_ignore_case(lx.as_str(), "div") {
            TokenType::DivOp
        } else if str_eq_ignore_case(lx.as_str(), "mod") {
            TokenType::ModOp
        } else if str_eq_ignore_case(lx.as_str(), "if") {
            TokenType::IfKeyword
        } else if str_eq_ignore_case(lx.as_str(), "else") {
            TokenType::ElseKeyword
        } else if str_eq_ignore_case(lx.as_str(), "then") {
            TokenType::ThenKeyword
        } else if str_eq_ignore_case(lx.as_str(), "or") {
            TokenType::OrOp
        } else if str_eq_ignore_case(lx.as_str(), "and") {
            TokenType::AndOp
        } else if str_eq_ignore_case(lx.as_str(), "while") {
            TokenType::WhileKeyword
        } else if str_eq_ignore_case(lx.as_str(), "do") {
            TokenType::DoKeyword
        } else if str_eq_ignore_case(lx.as_str(), "type") {
            TokenType::TypeKeyword
        } else if str_eq_ignore_case(lx.as_str(), "program") {
            TokenType::ProgramKeyword
        } else if str_eq_ignore_case(lx.as_str(), "begin") {
            TokenType::BeginKeyword
        } else if str_eq_ignore_case(lx.as_str(), "end") {
            TokenType::EndKeyword
        } else if str_eq_ignore_case(lx.as_str(), "var") {
            TokenType::VarKeyword
        } else {
            TokenType::Identifier(lx)
        };
        Ok(Token::new(kind, pos))
    }

    /// Scan the operator at the cursor: `+ - * =` alone, `: > <` with one
    /// character of lookahead for `:= >= <= <>`.
    fn operator(&mut self, c: char) -> (r: Result<Token, CompilerError>)
        requires
            old(self).inv(),
            old(self).idx() < old(self).text().len(),
            old(self).text()[old(self).idx()] == c,
            spec_is_op_char(c),
        ensures
            final(self).inv(),
            final(self).text() == old(self).text(),
            ({
                let step = spec_scan_operator(old(self).text(), old(self).idx());
                &&& final(self).idx() == step.next
                &&& match r {
                    Ok(t) => step.out == Some(Result::<TokenView, ErrorView>::Ok(t@)),
                    Err(e) => step.out == Some(Result::<TokenView, ErrorView>::Err(e@)),
                }
            }),
    {
        let pos = self.chars.position();
        if c == '+' {
            self.chars.advance();
            Ok(Token::new(TokenType::PlusOp, pos))
        } else if c == '-' {
            self.chars.advance();
            Ok(Token::new(TokenType::MinusOp, pos))
        } else if c == '*' {
            self.chars.advance();
            Ok(Token::new(TokenType::MulOp, pos))
        } else if c == ':' {
            match self.chars.peek() {
                Some(n) if n == '=' => {
                    self.chars.advance();
                    self.chars.advance();
                    Ok(Token::new(TokenType::AssignOp, pos))
                },
                _ => {
                    self.chars.advance();
                    Ok(Token::new(TokenType::Colon, pos))
                },
            }
        } else if c == '=' {
            self.chars.advance();
            Ok(Token::new(TokenType::Eq, pos))
        } else if c == '>' {
            match self.chars.peek() {
                Some(n) if n == '=' => {
                    self.chars.advance();
                    self.chars.advance();
                    Ok(Token::new(TokenType::BiggerEq, pos))
                },
                _ => {
                    self.chars.advance();
                    Ok(Token::new(TokenType::Bigger, pos))
                },
            }
        } else {
            match self.chars.peek() {
                Some(n) if n == '=' => {
                    self.chars.advance();
                    self.chars.advance();
                    Ok(Token::new(TokenType::LessEq, pos))
                },
                Some(n) if n == '>' => {
                    self.chars.advance();
                    self.chars.advance();
                    Ok(Token::new(TokenType::UnEq, pos))
                },
                _ => {
                    self.chars.advance();
                    Ok(Token::new(TokenType::Less, pos))
                },
            }
        }
    }

    /// Scan the punctuation symbol or string literal at the cursor; an
    /// unrecognized character is consumed and reported.
    fn symbol(&mut self, c: char) -> (r: Result<Token, CompilerError>)
        requires
            old(self).inv(),
            old(self).idx() < old(self).text().len(),
            old(self).text()[old(self).idx()] == c,
            !spec_is_digit(c),
            !spec_is_alpha(c),
            !spec_is_op_char(c),
            !spec_is_ws(c),
        ensures
            final(self).inv(),
            final(self).text() == old(self).text(),
            ({
                let step = spec_scan_symbol(old(self).text(), old(self).idx());
                &&& final(self).idx() == step.next
                &&& match r {
                    Ok(t) => step.out == Some(Result::<TokenView, ErrorView>::Ok(t@)),
                    Err(e) => step.out == Some(Result::<TokenView, ErrorView>::Err(e@)),
                }
            }),
    {
        let ghost s = self.text();
        let ghost st = self.idx();
        let pos = self.chars.position();
        if c == ';' {
            self.chars.advance();
            Ok(Token::new(TokenType::Semicolon, pos))
        } else if c == '.' {
            self.chars.advance();
            Ok(Token::new(TokenType::Period, pos))
        } else if c == '(' {
            self.chars.advance();
            Ok(Token::new(TokenType::LBrace, pos))
        } else if c == ')' {
            self.chars.advance();
            Ok(Token::new(TokenType::RBrace, pos))
        } else if c == ',' {
            self.chars.advance();
            Ok(Token::new(TokenType::Comma, pos))
        } else if c == '\'' {
            self.chars.advance();
            let qstart = self.chars.idx;
            while self.at_not_quote()
                invariant
                    self.inv(),
                    self.text() == s,
                    0 <= st < s.len(),
                    qstart == st + 1,
                    st + 1 <= self.idx() <= s.len(),
                    forall|k: int| st + 1 <= k < self.idx() ==> (#[trigger] s[k]) != '\'',
                decreases s.len() - self.idx(),
            {
                self.chars.advance();
            }
            proof {
                lemma_seek_is(s, st + 1, self.idx(), |x: char| x != '\'');
            }
            match self.chars.current() {
                Some(_) => {
                    let lx = self.chars.substring(qstart, self.chars.idx);
                    self.chars.advance();
                    Ok(Token::new(TokenType::StringLiteral(lx), pos))
                },
                None => Err(
                    CompilerError::lexical(String::from_str("Invalid string literal"), pos),
                ),
            }
        } else {
            let lx = self.chars.substring(self.chars.idx, self.chars.idx + 1);
            self.chars.advance();
            Err(
                CompilerError::lexical(
                    String::from_str("Unsupported symbol ").concat(lx.as_str()),
                    pos,
                ),
            )
        }
    }

    /// Produce the next token of the stream, or `None` once the input is
    /// exhausted. A malformed token is handed out as a lexical error and the
    /// stream resumes at the next token boundary.
    pub fn next_token(&mut self) -> (r: Option<Result<Token, CompilerError>>)
        requires
            old(self).inv(),
        ensures
            final(self).inv(),
            final(self).text() == old(self).text(),
            old(self).idx() <= final(self).idx() <= final(self).text().len(),
            r is Some ==> final(self).idx() > old(self).idx(),
            r is None ==> final(self).idx() == final(self).text().len(),
            ({
                let step = spec_next_token(old(self).text(), old(self).idx());
                &&& final(self).idx() == step.next
                &&& match r {
                    None => step.out is None,
                    Some(Ok(t)) => step.out == Some(Result::<TokenView, ErrorView>::Ok(t@)),
                    Some(Err(e)) => step.out == Some(Result::<TokenView, ErrorView>::Err(e@)),
                }
            }),
    {
        proof {
            lemma_next_token_progress(self.text(), self.idx());
            lemma_seek_bounds(self.text(), self.idx(), |c: char| spec_is_ws(c));
        }
        self.skip_ws();
        match self.chars.current() {
            None => None,
            Some(c) => {
                if is_digit(c) {
                    Some(self.number())
                } else if is_alpha(c) {
                    Some(self.maybe_keyword())
                } else if c == '+' || c == '-' || c == '*' || c == ':' || c == '=' || c == '>'
                    || c == '<' {
                    Some(self.operator(c))
                } else {
                    Some(self.symbol(c))
                }
            },
        }
    }
}

} // verus!
