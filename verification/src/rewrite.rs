//! Expression rewriting for bindings: a small lexer over binding expressions
//! that suffixes every bare reference to a reactive variable with the
//! value-accessor `.v`, and the `${...}` interpolation rewriter that wraps
//! each interpolated expression in the runtime's HTML escape.

use crate::strutil::{
    contains_string, is_op_char, is_quote_char, is_space_char, is_word_char, spec_is_op_char,
    spec_is_quote, spec_is_space, spec_is_word_char, str_eq,
};
use vstd::prelude::*;
use vstd::string::StrSliceExecFns;
use vstd::string::StringExecFns;

verus! {

/// The end of a maximal run of word characters (`word` true) or operator
/// characters (`word` false) starting at `i`.
pub open spec fn spec_run_end(s: Seq<char>, i: int, word: bool) -> int
    decreases s.len() - i,
        when 0 <= i
{
    if i >= s.len() {
        i
    } else if (word && spec_is_word_char(s[i])) || (!word && spec_is_op_char(s[i])) {
        spec_run_end(s, i + 1, word)
    } else {
        i
    }
}

pub proof fn lemma_run_end_bounds(s: Seq<char>, i: int, word: bool)
    requires
        0 <= i <= s.len(),
    ensures
        i <= spec_run_end(s, i, word) <= s.len(),
    decreases s.len() - i,
{
    if i < s.len() && ((word && spec_is_word_char(s[i])) || (!word && spec_is_op_char(s[i]))) {
        lemma_run_end_bounds(s, i + 1, word);
    }
}

/// The first position at or after `i` holding the character, or -1.
pub open spec fn spec_find_char_from(s: Seq<char>, i: int, c: char) -> int
    decreases s.len() - i,
        when 0 <= i
{
    if i >= s.len() {
        -1
    } else if s[i] == c {
        i
    } else {
        spec_find_char_from(s, i + 1, c)
    }
}

pub proof fn lemma_find_char_from_bounds(s: Seq<char>, i: int, c: char)
    requires
        0 <= i,
    ensures
        spec_find_char_from(s, i, c) == -1 || (i <= spec_find_char_from(s, i, c) < s.len()
            && s[spec_find_char_from(s, i, c)] == c),
    decreases s.len() - i,
{
    if i < s.len() && s[i] != c {
        lemma_find_char_from_bounds(s, i + 1, c);
    }
}

/// Where the token starting at position `i` ends: a word run, a quoted
/// string up to its closing quote (or the end of input when unterminated),
/// an operator run, or a single character.
pub open spec fn spec_token_end(s: Seq<char>, i: int) -> int {
    if spec_is_word_char(s[i]) {
        spec_run_end(s, i + 1, true)
    } else if spec_is_quote(s[i]) {
        let e = spec_find_char_from(s, i + 1, s[i]);
        if e < 0 {
            s.len() as int
        } else {
            e + 1
        }
    } else if spec_is_op_char(s[i]) {
        spec_run_end(s, i + 1, false)
    } else {
        i + 1
    }
}

pub proof fn lemma_token_end_bounds(s: Seq<char>, i: int)
    requires
        0 <= i < s.len(),
    ensures
        i < spec_token_end(s, i) <= s.len(),
{
    if spec_is_word_char(s[i]) {
        lemma_run_end_bounds(s, i + 1, true);
    } else if spec_is_quote(s[i]) {
        lemma_find_char_from_bounds(s, i + 1, s[i]);
    } else if spec_is_op_char(s[i]) {
        lemma_run_end_bounds(s, i + 1, false);
    }
}

/// The tokens of a binding expression from position `i` on, whitespace
/// dropped.
pub open spec fn spec_lex_from(s: Seq<char>, i: int) -> Seq<Seq<char>>
    decreases s.len() - i,
        when 0 <= i
        via spec_lex_from_dec
{
    if i >= s.len() {
        Seq::empty()
    } else if spec_is_space(s[i]) {
        spec_lex_from(s, i + 1)
    } else {
        let j = spec_token_end(s, i);
        seq![s.subrange(i, j)] + spec_lex_from(s, j)
    }
}

#[via_fn]
proof fn spec_lex_from_dec(s: Seq<char>, i: int) {
    if 0 <= i < s.len() && !spec_is_space(s[i]) {
        lemma_token_end_bounds(s, i);
    }
}

/// The tokens of a binding expression.
pub open spec fn spec_lex(s: Seq<char>) -> Seq<Seq<char>> {
    spec_lex_from(s, 0)
}

/// A token with the value accessor appended when it is a bare reference to
/// one of the given variables: a word token, not preceded by a member-access
/// dot.
pub open spec fn spec_tok_rewritten(toks: Seq<Seq<char>>, k: int, vars: Seq<Seq<char>>) -> Seq<
    char,
> {
    let t = toks[k];
    if t.len() > 0 && spec_is_word_char(t[0]) && vars.contains(t) && (k == 0 || toks[k - 1]
        != "."@) {
        t + ".v"@
    } else {
        t
    }
}

/// All tokens after variable-reference rewriting.
pub open spec fn spec_rewritten_tokens(toks: Seq<Seq<char>>, vars: Seq<Seq<char>>) -> Seq<
    Seq<char>,
> {
    Seq::new(toks.len(), |k: int| spec_tok_rewritten(toks, k, vars))
}

/// Tokens joined back into an expression: one space between tokens, none
/// around a member-access dot.
pub open spec fn spec_join_expr(toks: Seq<Seq<char>>) -> Seq<char>
    decreases toks.len(),
{
    if toks.len() == 0 {
        Seq::empty()
    } else if toks.len() == 1 {
        toks[0]
    } else {
        spec_join_expr(toks.drop_last()) + (if toks[toks.len() - 2] == "."@ || toks.last()
            == "."@ {
            Seq::<char>::empty()
        } else {
            " "@
        }) + toks.last()
    }
}

/// Whether some token is a bare reference to the variable.
pub open spec fn spec_token_var_match(toks: Seq<Seq<char>>, v: Seq<char>) -> bool {
    exists|k: int|
        0 <= k < toks.len() && #[trigger] toks[k] == v && v.len() > 0 && spec_is_word_char(v[0])
            && (k == 0 || toks[k - 1] != "."@)
}

/// The declared variables that the expression references, in declaration
/// order.
pub open spec fn spec_used_vars(toks: Seq<Seq<char>>, vars: Seq<Seq<char>>) -> Seq<Seq<char>>
    decreases vars.len(),
{
    if vars.len() == 0 {
        Seq::empty()
    } else {
        spec_used_vars(toks, vars.drop_last()) + (if spec_token_var_match(toks, vars.last()) {
            seq![vars.last()]
        } else {
            Seq::<Seq<char>>::empty()
        })
    }
}

/// A binding expression with every bare reactive-variable reference
/// suffixed by the value accessor.
pub open spec fn spec_append_v_text(s: Seq<char>, vars: Seq<Seq<char>>) -> Seq<char> {
    spec_join_expr(spec_rewritten_tokens(spec_lex(s), vars))
}

/// The reactive variables a binding expression reads.
pub open spec fn spec_append_v_used(s: Seq<char>, vars: Seq<Seq<char>>) -> Seq<Seq<char>> {
    spec_used_vars(spec_lex(s), vars)
}

fn lex_tokens(s: &str) -> (r: Vec<String>)
    ensures
        r.deep_view() == spec_lex(s@),
{
    let n = s.unicode_len();
    let mut r: Vec<String> = Vec::new();
    let mut i: usize = 0;
    while i < n
        invariant
            0 <= i <= n == s@.len(),
            spec_lex(s@) == r.deep_view() + spec_lex_from(s@, i as int),
        decreases n - i,
    {
        let ghost old_deep = r.deep_view();
        let c = s.get_char(i);
        if is_space_char(c) {
            proof {
                assert(spec_lex_from(s@, i as int) == spec_lex_from(s@, i as int + 1));
            }
            i = i + 1;
        } else {
            let mut j: usize;
            if is_word_char(c) {
                j = i + 1;
                while j < n && is_word_char(s.get_char(j))
                    invariant
                        i + 1 <= j <= n == s@.len(),
                        spec_run_end(s@, i as int + 1, true) == spec_run_end(s@, j as int, true),
                    decreases n - j,
                {
                    j = j + 1;
                }
                proof {
                    assert(spec_run_end(s@, j as int, true) == j as int);
                    assert(spec_token_end(s@, i as int) == j as int);
                }
            } else if is_quote_char(c) {
                let mut k: usize = i + 1;
                while k < n && s.get_char(k) != c
                    invariant
                        i + 1 <= k <= n == s@.len(),
                        spec_find_char_from(s@, i as int + 1, c) == spec_find_char_from(
                            s@,
                            k as int,
                            c,
                        ),
                    decreases n - k,
                {
                    k = k + 1;
                }
                if k < n {
                    j = k + 1;
                    proof {
                        assert(spec_find_char_from(s@, k as int, c) == k as int);
                    }
                } else {
                    j = n;
                    proof {
                        assert(spec_find_char_from(s@, k as int, c) == -1);
                    }
                }
                proof {
                    assert(spec_token_end(s@, i as int) == j as int);
                }
            } else if is_op_char(c) {
                j = i + 1;
                while j < n && is_op_char(s.get_char(j))
                    invariant
                        i + 1 <= j <= n == s@.len(),
                        spec_run_end(s@, i as int + 1, false) == spec_run_end(s@, j as int, false),
                    decreases n - j,
                {
                    j = j + 1;
                }
                proof {
                    assert(spec_run_end(s@, j as int, false) == j as int);
                    assert(spec_token_end(s@, i as int) == j as int);
                }
            } else {
                j = i + 1;
                proof {
                    assert(spec_token_end(s@, i as int) == j as int);
                }
            }
            r.push(String::from_str(s.substring_char(i, j)));
            proof {
                assert(spec_lex_from(s@, i as int) == seq![s@.subrange(i as int, j as int)]
                    + spec_lex_from(s@, j as int));
                assert(r.deep_view() =~= old_deep.push(s@.subrange(i as int, j as int)));
                assert(r.deep_view() + spec_lex_from(s@, j as int) =~= old_deep + spec_lex_from(
                    s@,
                    i as int,
                ));
            }
            i = j;
        }
    }
    proof {
        assert(spec_lex_from(s@, i as int) =~= Seq::<Seq<char>>::empty());
        assert(r.deep_view() + spec_lex_from(s@, i as int) =~= r.deep_view());
    }
    r
}

fn rewrite_tokens(toks: &Vec<String>, vars: &Vec<String>) -> (r: Vec<String>)
    ensures
        r.deep_view() == spec_rewritten_tokens(toks.deep_view(), vars.deep_view()),
{
    let ghost rw = spec_rewritten_tokens(toks.deep_view(), vars.deep_view());
    let mut r: Vec<String> = Vec::new();
    let mut k: usize = 0;
    while k < toks.len()
        invariant
            0 <= k <= toks@.len(),
            rw == spec_rewritten_tokens(toks.deep_view(), vars.deep_view()),
            r.deep_view() =~= rw.take(k as int),
        decreases toks@.len() - k,
    {
        let ghost old_deep = r.deep_view();
        let is_ref = if toks[k].as_str().unicode_len() > 0 {
            is_word_char(toks[k].as_str().get_char(0)) && contains_string(vars, toks[k].as_str())
                && (k == 0 || !str_eq(toks[k - 1].as_str(), "."))
        } else {
            false
        };
        let mut nt = toks[k].clone();
        if is_ref {
            nt.append(".v");
        }
        proof {
            assert(nt@ == spec_tok_rewritten(toks.deep_view(), k as int, vars.deep_view()));
        }
        r.push(nt);
        k = k + 1;
        proof {
            assert(r.deep_view() =~= old_deep.push(
                spec_tok_rewritten(toks.deep_view(), k as int - 1, vars.deep_view()),
            ));
            assert(r.deep_view() =~= rw.take(k as int));
        }
    }
    proof {
        assert(rw.take(toks@.len() as int) =~= rw);
    }
    r
}

fn join_expr(toks: &Vec<String>) -> (r: String)
    ensures
        r@ == spec_join_expr(toks.deep_view()),
{
    if toks.len() == 0 {
        let r = String::new();
        proof {
            assert(r@ =~= spec_join_expr(toks.deep_view()));
        }
        return r;
    }
    let mut r = toks[0].clone();
    let mut k: usize = 1;
    while k < toks.len()
        invariant
            1 <= k <= toks@.len(),
            r@ == spec_join_expr(toks.deep_view().take(k as int)),
        decreases toks@.len() - k,
    {
        if !(str_eq(toks[k - 1].as_str(), ".") || str_eq(toks[k].as_str(), ".")) {
            r.append(" ");
        }
        r.append(toks[k].as_str());
        k = k + 1;
        proof {
            let pre = toks.deep_view().take(k as int);
            assert(pre.drop_last() =~= toks.deep_view().take(k as int - 1));
            assert(pre.last() == toks@[k as int - 1]@);
            assert(pre[pre.len() - 2] == toks@[k as int - 2]@);
            if toks@[k as int - 2]@ == "."@ || toks@[k as int - 1]@ == "."@ {
                assert(r@ =~= spec_join_expr(pre.drop_last()) + Seq::<char>::empty() + pre.last());
            }
        }
    }
    proof {
        assert(toks.deep_view().take(toks@.len() as int) =~= toks.deep_view());
        assert(toks.deep_view().take(1).drop_last() =~= Seq::<Seq<char>>::empty());
    }
    r
}

fn token_var_match(toks: &Vec<String>, v: &str) -> (r: bool)
    ensures
        r == spec_token_var_match(toks.deep_view(), v@),
{
    let n = v.unicode_len();
    if n == 0 || !is_word_char(v.get_char(0)) {
        return false;
    }
    let mut k: usize = 0;
    while k < toks.len()
        invariant
            0 <= k <= toks@.len(),
            v@.len() > 0 && spec_is_word_char(v@[0]),
            forall|p: int|
                0 <= p < k ==> !(#[trigger] toks.deep_view()[p] == v@ && (p == 0
                    || toks.deep_view()[p - 1] != "."@)),
        decreases toks@.len() - k,
    {
        if str_eq(toks[k].as_str(), v) && (k == 0 || !str_eq(toks[k - 1].as_str(), ".")) {
            proof {
                assert(toks.deep_view()[k as int] == v@);
            }
            return true;
        }
        k = k + 1;
    }
    proof {
        if spec_token_var_match(toks.deep_view(), v@) {
            let p = choose|p: int|
                0 <= p < toks.deep_view().len() && #[trigger] toks.deep_view()[p] == v@
                    && v@.len() > 0 && spec_is_word_char(v@[0]) && (p == 0 || toks.deep_view()[p
                    - 1] != "."@);
            assert(!(toks.deep_view()[p] == v@ && (p == 0 || toks.deep_view()[p - 1] != "."@)));
        }
    }
    false
}

/// Rewrites a binding expression so that every bare reference to a declared
/// reactive variable reads the variable's current value, and reports which
/// variables the expression depends on, in declaration order.
pub fn append_v_to_vars(s: &str, variables: &Vec<String>) -> (r: (String, Vec<String>))
    ensures
        r.0@ == spec_append_v_text(s@, variables.deep_view()),
        r.1.deep_view() == spec_append_v_used(s@, variables.deep_view()),
{
    let toks = lex_tokens(s);
    let rewritten = rewrite_tokens(&toks, variables);
    let text = join_expr(&rewritten);
    let mut used: Vec<String> = Vec::new();
    let mut i: usize = 0;
    proof {
        assert(used.deep_view() =~= spec_used_vars(toks.deep_view(), variables.deep_view().take(0)));
        assert(variables.deep_view().take(0) =~= Seq::<Seq<char>>::empty());
    }
    while i < variables.len()
        invariant
            0 <= i <= variables@.len(),
            toks.deep_view() == spec_lex(s@),
            used.deep_view() == spec_used_vars(
                toks.deep_view(),
                variables.deep_view().take(i as int),
            ),
        decreases variables@.len() - i,
    {
        let ghost old_used = used.deep_view();
        if token_var_match(&toks, variables[i].as_str()) {
            used.push(variables[i].clone());
        }
        i = i + 1;
        proof {
            let pre = variables.deep_view().take(i as int);
            assert(pre.drop_last() =~= variables.deep_view().take(i as int - 1));
            assert(pre.last() == variables@[i as int - 1]@);
            if spec_token_var_match(toks.deep_view(), pre.last()) {
                assert(used.deep_view() =~= old_used + seq![pre.last()]);
            } else {
                assert(used.deep_view() =~= old_used + Seq::<Seq<char>>::empty());
            }
        }
    }
    proof {
        assert(variables.deep_view().take(variables@.len() as int) =~= variables.deep_view());
    }
    (text, used)
}

/// An expression wrapped in the runtime's HTML-escape call.
pub open spec fn spec_escape_html(s: Seq<char>) -> Seq<char> {
    "escapeHtml("@ + s + ")"@
}

/// Wraps an expression in the runtime's HTML-escape call.
pub fn escape_html(s: &str) -> (r: String)
    ensures
        r@ == spec_escape_html(s@),
{
    let mut r = String::from_str("escapeHtml(");
    r.append(s);
    r.append(")");
    proof {
        assert(r@ =~= spec_escape_html(s@));
    }
    r
}

/// The first position at or after `i` where a `${` interpolation opens,
/// or -1.
pub open spec fn spec_find_interp(s: Seq<char>, i: int) -> int
    decreases s.len() - i,
        when 0 <= i
{
    if i + 2 > s.len() {
        -1
    } else if s[i] == '$' && s[i + 1] == '{' {
        i
    } else {
        spec_find_interp(s, i + 1)
    }
}

pub proof fn lemma_find_interp_bounds(s: Seq<char>, i: int)
    requires
        0 <= i,
    ensures
        spec_find_interp(s, i) == -1 || (i <= spec_find_interp(s, i) && spec_find_interp(s, i) + 2
            <= s.len() && s[spec_find_interp(s, i)] == '$' && s[spec_find_interp(s, i) + 1] == '{'),
    decreases s.len() - i,
{
    if i + 2 <= s.len() && !(s[i] == '$' && s[i + 1] == '{') {
        lemma_find_interp_bounds(s, i + 1);
    }
}

/// The text from position `i` on with every `${expr}` interpolation
/// rewritten to escape its (variable-rewritten) expression; also the
/// dependent variables of each interpolation in order, and the number of
/// interpolations found (saturating). An interpolation with no closing
/// brace is left as it stands.
pub open spec fn spec_replace_text(s: Seq<char>, vars: Seq<Seq<char>>, i: int) -> (Seq<char>, Seq<
    Seq<char>,
>, u32)
    decreases s.len() - i,
        when 0 <= i
        via spec_replace_text_dec
{
    let st = spec_find_interp(s, i);
    if st < 0 {
        (s.subrange(i, s.len() as int), Seq::empty(), 0u32)
    } else {
        let e = spec_find_char_from(s, st, '}');
        if e < 0 {
            (s.subrange(i, s.len() as int), Seq::empty(), 1u32)
        } else {
            let inner = s.subrange(st + 2, e);
            let rest = spec_replace_text(s, vars, e + 1);
            (
                s.subrange(i, st) + "${"@ + spec_escape_html(spec_append_v_text(inner, vars))
                    + "}"@ + rest.0,
                spec_append_v_used(inner, vars) + rest.1,
                if rest.2 < 0xffff_ffffu32 {
                    (rest.2 + 1) as u32
                } else {
                    rest.2
                },
            )
        }
    }
}

#[via_fn]
proof fn spec_replace_text_dec(s: Seq<char>, vars: Seq<Seq<char>>, i: int) {
    if 0 <= i {
        lemma_find_interp_bounds(s, i);
        let st = spec_find_interp(s, i);
        if st >= 0 {
            lemma_find_char_from_bounds(s, st, '}');
        }
    }
}

fn find_interp(s: &str, i: usize) -> (r: Option<usize>)
    requires
        i <= s@.len(),
    ensures
        match r {
            Some(j) => spec_find_interp(s@, i as int) == j as int,
            None => spec_find_interp(s@, i as int) == -1,
        },
{
    let n = s.unicode_len();
    if n < 2 || i > n - 2 {
        return None;
    }
    let mut k: usize = i;
    while k <= n - 2 && !(s.get_char(k) == '$' && s.get_char(k + 1) == '{')
        invariant
            i <= k <= n == s@.len(),
            n >= 2,
            spec_find_interp(s@, i as int) == spec_find_interp(s@, k as int),
        decreases n - k,
    {
        k = k + 1;
    }
    if k <= n - 2 {
        Some(k)
    } else {
        None
    }
}

fn find_char_from(s: &str, i: usize, c: char) -> (r: Option<usize>)
    requires
        i <= s@.len(),
    ensures
        match r {
            Some(j) => spec_find_char_from(s@, i as int, c) == j as int && i <= j < s@.len(),
            None => spec_find_char_from(s@, i as int, c) == -1,
        },
{
    let n = s.unicode_len();
    let mut k: usize = i;
    while k < n && s.get_char(k) != c
        invariant
            i <= k <= n == s@.len(),
            spec_find_char_from(s@, i as int, c) == spec_find_char_from(s@, k as int, c),
        decreases n - k,
    {
        k = k + 1;
    }
    if k < n {
        Some(k)
    } else {
        None
    }
}

fn replace_text_from(s: &str, variables: &Vec<String>, i: usize) -> (r: (String, Vec<String>, u32))
    requires
        i <= s@.len(),
    ensures
        r.0@ == spec_replace_text(s@, variables.deep_view(), i as int).0,
        r.1.deep_view() == spec_replace_text(s@, variables.deep_view(), i as int).1,
        r.2 == spec_replace_text(s@, variables.deep_view(), i as int).2,
    decreases s@.len() - i,
{
    let ghost vars = variables.deep_view();
    let n = s.unicode_len();
    match find_interp(s, i) {
        None => {
            let out = String::from_str(s.substring_char(i, s.unicode_len()));
            let deps: Vec<String> = Vec::new();
            proof {
                assert(deps.deep_view() =~= spec_replace_text(s@, vars, i as int).1);
            }
            (out, deps, 0)
        },
        Some(st) => {
            proof {
                lemma_find_interp_bounds(s@, i as int);
            }
            match find_char_from(s, st, '}') {
                None => {
                    let out = String::from_str(s.substring_char(i, s.unicode_len()));
                    let deps: Vec<String> = Vec::new();
                    proof {
                        assert(deps.deep_view() =~= spec_replace_text(s@, vars, i as int).1);
                    }
                    (out, deps, 1)
                },
                Some(e) => {
                    proof {
                        lemma_find_char_from_bounds(s@, st as int, '}');
                        assert(s@[st as int] == '$');
                        assert(s@[st as int + 1] == '{');
                        assert(s@[e as int] == '}');
                        assert(e != st && e != st + 1);
                        assert(st + 2 <= e);
                    }
                    let inner = s.substring_char(st + 2, e);
                    let (rw, used) = append_v_to_vars(inner, variables);
                    let (rest_text, rest_deps, rest_count) = replace_text_from(
                        s,
                        variables,
                        e + 1,
                    );
                    let mut out = String::from_str(s.substring_char(i, st));
                    out.append("${");
                    let esc = escape_html(rw.as_str());
                    out.append(esc.as_str());
                    out.append("}");
                    out.append(rest_text.as_str());
                    let mut deps = used;
                    let mut rest_deps = rest_deps;
                    deps.append(&mut rest_deps);
                    let count: u32 = if rest_count < 0xffff_ffffu32 {
                        rest_count + 1
                    } else {
                        rest_count
                    };
                    proof {
                        let full = spec_replace_text(s@, vars, i as int);
                        assert(out@ =~= full.0);
                        assert(deps.deep_view() =~= full.1);
                    }
                    (out, deps, count)
                },
            }
        },
    }
}

/// Rewrites every `${expr}` interpolation in a text node so that the
/// expression reads the current values of the reactive variables it names
/// and is wrapped in the runtime's HTML escape; returns the dependent
/// variables of all interpolations in order, and how many interpolations
/// were found.
pub fn replace_text_with_reactive_value(code: &mut String, variables: &Vec<String>) -> (r: (
    Vec<String>,
    u32,
))
    ensures
        final (code)@ == spec_replace_text(old(code)@, variables.deep_view(), 0).0,
        r.0.deep_view() == spec_replace_text(old(code)@, variables.deep_view(), 0).1,
        r.1 == spec_replace_text(old(code)@, variables.deep_view(), 0).2,
{
    let (text, deps, count) = replace_text_from(code.as_str(), variables, 0);
    *code = text;
    (deps, count)
}

} // verus!
