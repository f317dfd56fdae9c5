//! The round trip of the cURL writer and reader: a request written by
//! `to_curl` and read back by `parse_curl` keeps its method, URL, body and
//! headers.

use vstd::prelude::*;

use crate::curl::{
    apply_flag, apply_word, body_parts, curl_acc_init, header_of, curl_parts, curl_scan, escape_sq, header_parts,
    is_get_flag, is_ignored_flag, join_continuations, parse_curl_spec, takes_value, to_curl_spec,
    tok_init, tok_run, tok_step, tokenize_spec, CurlAcc, TokMode, TokState,
};
use crate::domain::{lemma_method_name_upper, method_has_body, method_name, KeyValuePair, RequestData};
use crate::text::{
    is_white_space, join, lemma_replace_absent, lemma_split_once_at, lemma_replace_concat, replace_all, starts_with, trim,
    trim_end, trim_start, uppercase,
};

verus! {

/// The character `c` does not occur in `s`.
pub open spec fn lacks(s: Seq<char>, c: char) -> bool {
    forall|i: int| 0 <= i < s.len() ==> s[i] != c
}

/// A character that the tokenizer adds to a plain word as it is.
pub open spec fn plain_char(c: char) -> bool {
    c != ' ' && c != '\t' && c != '\'' && c != '"' && c != '$'
}

/// A word of plain characters.
pub open spec fn plain_word(w: Seq<char>) -> bool {
    forall|i: int| 0 <= i < w.len() ==> plain_char(w[i])
}

/// The tokenizer between words.
pub open spec fn clean(toks: Seq<Seq<char>>) -> TokState {
    TokState { mode: TokMode::Plain, cur: Seq::empty(), toks }
}

/// Reading a concatenation reads one part after the other.
proof fn lemma_tok_run_append(st: TokState, a: Seq<char>, b: Seq<char>)
    ensures
        tok_run(st, a + b) == tok_run(tok_run(st, a), b),
    decreases b.len(),
{
    if b.len() == 0 {
        assert(a + b =~= a);
    } else {
        assert((a + b).drop_last() =~= a + b.drop_last());
        assert((a + b).last() == b.last());
        lemma_tok_run_append(st, a, b.drop_last());
    }
}

/// Plain characters outside quotes extend the current word.
proof fn lemma_tok_plain(st: TokState, w: Seq<char>)
    requires
        st.mode == TokMode::Plain,
        plain_word(w),
    ensures
        tok_run(st, w) =~= (TokState { mode: TokMode::Plain, cur: st.cur + w, toks: st.toks }),
    decreases w.len(),
{
    if w.len() == 0 {
        assert(st.cur + w =~= st.cur);
    } else {
        lemma_tok_plain(st, w.drop_last());
        assert((st.cur + w.drop_last()).push(w.last()) =~= st.cur + w);
    }
}

/// Inside single quotes, every character but a quote extends the word.
proof fn lemma_tok_single(st: TokState, x: Seq<char>)
    requires
        st.mode == TokMode::Single,
        lacks(x, '\''),
    ensures
        tok_run(st, x) =~= (TokState { mode: TokMode::Single, cur: st.cur + x, toks: st.toks }),
    decreases x.len(),
{
    if x.len() == 0 {
        assert(st.cur + x =~= st.cur);
    } else {
        lemma_tok_single(st, x.drop_last());
        assert((st.cur + x.drop_last()).push(x.last()) =~= st.cur + x);
    }
}

/// Spaces outside quotes end the current word, if any.
proof fn lemma_tok_spaces(st: TokState, sp: Seq<char>)
    requires
        st.mode == TokMode::Plain,
        sp.len() >= 1,
        forall|i: int| 0 <= i < sp.len() ==> sp[i] == ' ',
    ensures
        tok_run(st, sp) =~= clean(
            if st.cur.len() > 0 {
                st.toks.push(st.cur)
            } else {
                st.toks
            },
        ),
    decreases sp.len(),
{
    assert(sp.last() == ' ');
    if sp.len() > 1 {
        lemma_tok_spaces(st, sp.drop_last());
        let mid = tok_run(st, sp.drop_last());
        assert(tok_run(st, sp) == tok_step(mid, ' '));
    } else {
        assert(sp.drop_last() =~= Seq::<char>::empty());
        assert(tok_run(st, sp.drop_last()) == st);
        assert(tok_run(st, sp) == tok_step(st, ' '));
    }
}


/// What a line continuation and its indent become: four spaces.
pub open spec fn blank4() -> Seq<char> {
    seq![' ', ' ', ' ', ' ']
}

/// A plain word followed by blanks is one token.
proof fn lemma_piece_word(toks: Seq<Seq<char>>, w: Seq<char>)
    requires
        plain_word(w),
        w.len() > 0,
    ensures
        tok_run(clean(toks), w + blank4()) == clean(toks.push(w)),
{
    lemma_tok_run_append(clean(toks), w, blank4());
    lemma_tok_plain(clean(toks), w);
    assert(Seq::<char>::empty() + w =~= w);
    lemma_tok_spaces(TokState { mode: TokMode::Plain, cur: w, toks }, blank4());
}

/// Two plain words with a space between them, followed by blanks, are two
/// tokens.
proof fn lemma_piece_two_words(toks: Seq<Seq<char>>, a: Seq<char>, b: Seq<char>)
    requires
        plain_word(a),
        plain_word(b),
        a.len() > 0,
        b.len() > 0,
    ensures
        tok_run(clean(toks), a + seq![' '] + b + blank4()) == clean(toks.push(a).push(b)),
{
    let st = clean(toks);
    assert(a + seq![' '] + b + blank4() =~= (a + seq![' ']) + (b + blank4()));
    lemma_tok_run_append(st, a + seq![' '], b + blank4());
    lemma_tok_run_append(st, a, seq![' ']);
    lemma_tok_plain(st, a);
    assert(Seq::<char>::empty() + a =~= a);
    lemma_tok_spaces(TokState { mode: TokMode::Plain, cur: a, toks }, seq![' ']);
    lemma_piece_word(toks.push(a), b);
}

/// A plain word, a space, and a single-quoted text without quotes, followed
/// by blanks, are two tokens.
proof fn lemma_piece_quoted(toks: Seq<Seq<char>>, a: Seq<char>, x: Seq<char>)
    requires
        plain_word(a),
        a.len() > 0,
        lacks(x, '\''),
        x.len() > 0,
    ensures
        tok_run(clean(toks), a + seq![' ', '\''] + x + seq!['\''] + blank4()) == clean(toks.push(a).push(x)),
{
    let st = clean(toks);
    let t1 = toks.push(a);
    assert(a + seq![' ', '\''] + x + seq!['\''] + blank4() =~= (a + seq![' ']) + (seq!['\''] + x + seq![
        '\'',
    ] + blank4()));
    lemma_tok_run_append(st, a + seq![' '], seq!['\''] + x + seq!['\''] + blank4());
    lemma_tok_run_append(st, a, seq![' ']);
    lemma_tok_plain(st, a);
    assert(Seq::<char>::empty() + a =~= a);
    lemma_tok_spaces(TokState { mode: TokMode::Plain, cur: a, toks }, seq![' ']);
    // now in clean(t1)
    let st1 = clean(t1);
    assert(seq!['\''] + x + seq!['\''] + blank4() =~= seq!['\''] + (x + (seq!['\''] + blank4())));
    lemma_tok_run_append(st1, seq!['\''], x + (seq!['\''] + blank4()));
    assert(tok_run(st1, seq!['\'']) == tok_step(tok_run(st1, Seq::<char>::empty()), '\'')) by {
        assert(seq!['\''].drop_last() =~= Seq::<char>::empty());
    }
    let st2 = TokState { mode: TokMode::Single, cur: Seq::empty(), toks: t1 };
    assert(tok_run(st1, seq!['\'']) =~= st2);
    lemma_tok_run_append(st2, x, seq!['\''] + blank4());
    lemma_tok_single(st2, x);
    assert(Seq::<char>::empty() + x =~= x);
    let st3 = TokState { mode: TokMode::Single, cur: x, toks: t1 };
    lemma_tok_run_append(st3, seq!['\''], blank4());
    assert(tok_run(st3, seq!['\'']) == tok_step(tok_run(st3, Seq::<char>::empty()), '\'')) by {
        assert(seq!['\''].drop_last() =~= Seq::<char>::empty());
    }
    let st4 = TokState { mode: TokMode::Plain, cur: x, toks: t1 };
    assert(tok_run(st3, seq!['\'']) =~= st4);
    lemma_tok_spaces(st4, blank4());
}

/// A single-quoted text without quotes is the word being read.
proof fn lemma_piece_url(toks: Seq<Seq<char>>, u: Seq<char>)
    requires
        lacks(u, '\''),
    ensures
        tok_run(clean(toks), seq!['\''] + u + seq!['\'']) == (TokState { mode: TokMode::Plain, cur: u, toks }),
{
    let st1 = clean(toks);
    lemma_tok_run_append(st1, seq!['\''] + u, seq!['\'']);
    lemma_tok_run_append(st1, seq!['\''], u);
    assert(tok_run(st1, seq!['\'']) == tok_step(tok_run(st1, Seq::<char>::empty()), '\'')) by {
        assert(seq!['\''].drop_last() =~= Seq::<char>::empty());
    }
    let st2 = TokState { mode: TokMode::Single, cur: Seq::empty(), toks };
    assert(tok_run(st1, seq!['\'']) =~= st2);
    lemma_tok_single(st2, u);
    assert(Seq::<char>::empty() + u =~= u);
    let st3 = TokState { mode: TokMode::Single, cur: u, toks };
    assert(tok_run(st3, seq!['\'']) == tok_step(tok_run(st3, Seq::<char>::empty()), '\'')) by {
        assert(seq!['\''].drop_last() =~= Seq::<char>::empty());
    }
    assert(tok_run(st3, seq!['\'']) =~= (TokState { mode: TokMode::Plain, cur: u, toks }));
}


/// Each text followed by the separator, all concatenated.
pub open spec fn with_separators(ps: Seq<Seq<char>>, sep: Seq<char>) -> Seq<char>
    decreases ps.len(),
{
    if ps.len() == 0 {
        Seq::empty()
    } else {
        with_separators(ps.drop_last(), sep) + ps.last() + sep
    }
}

/// A join is the texts but the last, each followed by the separator, then
/// the last.
proof fn lemma_join_split(ps: Seq<Seq<char>>, sep: Seq<char>)
    requires
        ps.len() >= 1,
    ensures
        join(ps, sep) == with_separators(ps.drop_last(), sep) + ps.last(),
    decreases ps.len(),
{
    if ps.len() == 1 {
        assert(ps.drop_last() =~= Seq::<Seq<char>>::empty());
        assert(Seq::<char>::empty() + ps.last() =~= ps.last());
    } else {
        lemma_join_split(ps.drop_last(), sep);
        assert(ps.drop_last().drop_last() =~= ps.drop_last().drop_last());
        assert(with_separators(ps.drop_last().drop_last(), sep) + ps.drop_last().last() + sep + ps.last()
            =~= with_separators(ps.drop_last(), sep) + ps.last());
    }
}

/// `with_separators` of a concatenation.
proof fn lemma_with_separators_concat(a: Seq<Seq<char>>, b: Seq<Seq<char>>, sep: Seq<char>)
    ensures
        with_separators(a + b, sep) == with_separators(a, sep) + with_separators(b, sep),
    decreases b.len(),
{
    if b.len() == 0 {
        assert(a + b =~= a);
        assert(with_separators(a, sep) + Seq::<char>::empty() =~= with_separators(a, sep));
    } else {
        assert((a + b).drop_last() =~= a + b.drop_last());
        assert((a + b).last() == b.last());
        lemma_with_separators_concat(a, b.drop_last(), sep);
        assert(with_separators(a, sep) + with_separators(b.drop_last(), sep) + b.last() + sep
            =~= with_separators(a, sep) + (with_separators(b.drop_last(), sep) + b.last() + sep));
    }
}

/// Two texts with the separator after each.
proof fn lemma_with_separators_two(a: Seq<char>, b: Seq<char>, sep: Seq<char>)
    ensures
        with_separators(seq![a, b], sep) == a + sep + b + sep,
{
    assert(seq![a, b].drop_last() =~= seq![a]);
    assert(seq![a].drop_last() =~= Seq::<Seq<char>>::empty());
    assert(with_separators(Seq::<Seq<char>>::empty(), sep) =~= Seq::<char>::empty());
    assert(with_separators(seq![a], sep) =~= a + sep);
    assert(with_separators(seq![a, b], sep) =~= a + sep + b + sep);
}

/// A concatenation lacks a character that both parts lack.
proof fn lemma_lacks_concat(a: Seq<char>, b: Seq<char>, c: char)
    requires
        lacks(a, c),
        lacks(b, c),
    ensures
        lacks(a + b, c),
{
    assert forall|i: int| 0 <= i < (a + b).len() implies (a + b)[i] != c by {
        if i < a.len() {
            assert((a + b)[i] == a[i]);
        } else {
            assert((a + b)[i] == b[i - a.len()]);
        }
    }
}

/// The writer's separator: a space, a line continuation and an indent.
pub open spec fn continuation() -> Seq<char> {
    seq![' ', '\\', '\n', ' ', ' ']
}

/// Replacing line continuations turns the separator into four spaces.
proof fn lemma_replace_continuation()
    ensures
        replace_all(continuation(), seq!['\\', '\n'], seq![' ']) == blank4(),
{
    let pat = seq!['\\', '\n'];
    let rep = seq![' '];
    let s = continuation();
    assert(!starts_with(s, pat)) by {
        assert(s.take(2)[0] == ' ');
    }
    assert(s.drop_first() =~= seq!['\\', '\n', ' ', ' ']);
    assert(starts_with(s.drop_first(), pat)) by {
        assert(s.drop_first().take(2) =~= pat);
    }
    assert(s.drop_first().skip(2) =~= seq![' ', ' ']);
    let t = seq![' ', ' '];
    assert(!starts_with(t, pat)) by {
        assert(t.take(2)[0] == ' ');
    }
    assert(t.drop_first() =~= seq![' ']);
    assert(!starts_with(seq![' '], pat));
    assert(seq![' '].drop_first() =~= Seq::<char>::empty());
    assert(replace_all(Seq::<char>::empty(), pat, rep) =~= Seq::<char>::empty());
    assert(replace_all(seq![' '], pat, rep) =~= seq![' ']);
    assert(replace_all(t, pat, rep) =~= seq![' ', ' ']);
    assert(replace_all(s.drop_first(), pat, rep) =~= seq![' ', ' ', ' ']);
    assert(replace_all(s, pat, rep) =~= blank4());
}

/// Replacing line continuations in texts joined by the writer's separator
/// gives the texts joined by four spaces, when no text has a backslash.
proof fn lemma_replace_with_separators(ps: Seq<Seq<char>>)
    requires
        forall|i: int| 0 <= i < ps.len() ==> lacks(#[trigger] ps[i], '\\'),
    ensures
        replace_all(with_separators(ps, continuation()), seq!['\\', '\n'], seq![' ']) == with_separators(
            ps,
            blank4(),
        ),
        with_separators(ps, continuation()).len() == 0 || with_separators(ps, continuation()).last() == ' ',
    decreases ps.len(),
{
    let pat = seq!['\\', '\n'];
    let rep = seq![' '];
    if ps.len() == 0 {
        assert(replace_all(Seq::<char>::empty(), pat, rep) =~= Seq::<char>::empty());
    } else {
        let w = with_separators(ps.drop_last(), continuation());
        let l = ps.last();
        assert(lacks(l, '\\')) by {
            assert(ps[ps.len() - 1] == l);
        }
        lemma_replace_with_separators(ps.drop_last());
        assert((w + l).len() == 0 || (w + l).last() != '\\') by {
            if l.len() > 0 {
                assert((w + l).last() == l[l.len() - 1]);
            } else {
                assert(w + l =~= w);
            }
        }
        lemma_replace_concat(w + l, continuation(), pat, rep);
        lemma_replace_concat(w, l, pat, rep);
        lemma_replace_absent(l, pat, rep);
        lemma_replace_continuation();
    }
}


/// A header the writer emits: enabled, with a name.
pub open spec fn emitted(h: KeyValuePair) -> bool {
    h.enabled && h.key@.len() > 0
}

/// The emitted headers' names and values have no quote and no backslash.
pub open spec fn headers_quotable(hs: Seq<KeyValuePair>) -> bool {
    forall|i: int|
        0 <= i < hs.len() && emitted(#[trigger] hs[i]) ==> lacks(hs[i].key@, '\'') && lacks(hs[i].value@, '\'')
            && lacks(hs[i].key@, '\\') && lacks(hs[i].value@, '\\')
}

/// The tokens the writer's header words are read as: `-H` and the header
/// text, for each emitted header.
pub open spec fn header_tokens(hs: Seq<KeyValuePair>) -> Seq<Seq<char>>
    decreases hs.len(),
{
    if hs.len() == 0 {
        Seq::empty()
    } else {
        let prev = header_tokens(hs.drop_last());
        let h = hs.last();
        if emitted(h) {
            prev + seq![seq!['-', 'H'], h.key@ + seq![':', ' '] + h.value@]
        } else {
            prev
        }
    }
}

/// A text without quotes is written as it is.
proof fn lemma_escape_plain(s: Seq<char>)
    requires
        lacks(s, '\''),
    ensures
        escape_sq(s) == s,
{
    reveal_strlit("'");
    assert("'"@ =~= seq!['\'']);
    lemma_replace_absent(s, "'"@, "'\\''"@);
}

/// The header words: free of backslashes, and read as `header_tokens`.
#[verifier::spinoff_prover]
#[verifier::rlimit(50)]
proof fn lemma_header_words(toks: Seq<Seq<char>>, hs: Seq<KeyValuePair>)
    requires
        headers_quotable(hs),
    ensures
        forall|i: int| 0 <= i < header_parts(hs).len() ==> lacks(#[trigger] header_parts(hs)[i], '\\'),
        tok_run(clean(toks), with_separators(header_parts(hs), blank4())) == clean(toks + header_tokens(hs)),
        header_tokens(hs).len() % 2 == 0,
        forall|j: int| 0 <= j < header_tokens(hs).len() / 2 ==> #[trigger] header_tokens(hs)[2 * j] == seq!['-', 'H'],
    decreases hs.len(),
{
    if hs.len() == 0 {
        assert(toks + Seq::<Seq<char>>::empty() =~= toks);
    } else {
        let rest = hs.drop_last();
        assert(headers_quotable(rest)) by {
            assert forall|i: int| 0 <= i < rest.len() && emitted(#[trigger] rest[i]) implies lacks(rest[i].key@, '\'')
                && lacks(rest[i].value@, '\'') && lacks(rest[i].key@, '\\') && lacks(rest[i].value@, '\\') by {
                assert(rest[i] == hs[i]);
            }
        }
        lemma_header_words(toks, rest);
        let h = hs.last();
        if emitted(h) {
            assert(hs[hs.len() - 1] == h);
            let k = h.key@;
            let v = h.value@;
            lemma_escape_plain(k);
            lemma_escape_plain(v);
            reveal_strlit("-H '");
            reveal_strlit(": ");
            reveal_strlit("'");
            let piece = "-H '"@ + escape_sq(k) + ": "@ + escape_sq(v) + "'"@;
            let x = k + seq![':', ' '] + v;
            assert(piece =~= seq!['-', 'H'] + seq![' ', '\''] + x + seq!['\'']);
            let hp = header_parts(rest);
            assert(header_parts(hs) == hp.push(piece));
            assert(hp.push(piece).drop_last() =~= hp);
            assert(with_separators(hp.push(piece), blank4()) == with_separators(hp, blank4()) + piece + blank4());
            assert(with_separators(hp, blank4()) + piece + blank4() =~= with_separators(hp, blank4()) + (piece
                + blank4()));
            lemma_tok_run_append(clean(toks), with_separators(hp, blank4()), piece + blank4());
            assert(lacks(x, '\'')) by {
                lemma_lacks_concat(k, seq![':', ' '], '\'');
                lemma_lacks_concat(k + seq![':', ' '], v, '\'');
            }
            assert(x.len() > 0);
            assert(plain_word(seq!['-', 'H']));
            assert(piece + blank4() =~= seq!['-', 'H'] + seq![' ', '\''] + x + seq!['\''] + blank4());
            lemma_piece_quoted(toks + header_tokens(rest), seq!['-', 'H'], x);
            assert((toks + header_tokens(rest)).push(seq!['-', 'H']).push(x) =~= toks + header_tokens(hs));
            assert(lacks(piece, '\\')) by {
                lemma_lacks_concat(seq!['-', 'H', ' ', '\''], k, '\\');
                lemma_lacks_concat(seq!['-', 'H', ' ', '\''] + k, seq![':', ' '], '\\');
                lemma_lacks_concat(seq!['-', 'H', ' ', '\''] + k + seq![':', ' '], v, '\\');
                lemma_lacks_concat(seq!['-', 'H', ' ', '\''] + k + seq![':', ' '] + v, seq!['\''], '\\');
                assert(piece =~= seq!['-', 'H', ' ', '\''] + k + seq![':', ' '] + v + seq!['\'']);
            }
            assert forall|j: int| 0 <= j < header_tokens(hs).len() / 2 implies #[trigger] header_tokens(hs)[2 * j]
                == seq!['-', 'H'] by {
                if j < header_tokens(rest).len() / 2 {
                    assert(header_tokens(hs)[2 * j] == header_tokens(rest)[2 * j]);
                } else {
                    assert(2 * j == header_tokens(rest).len());
                }
            }
        } else {
            assert(header_parts(hs) == header_parts(rest));
        }
    }
}


/// The parts of the parser's state that decide the method, the URL and the
/// body agree.
pub open spec fn core_eq(a: CurlAcc, b: CurlAcc) -> bool {
    a.method == b.method && a.url == b.url && a.body == b.body && a.is_data_get == b.is_data_get
}

/// What the rest of a scan decides of the method, URL and body depends on
/// those parts of the state alone.
proof fn lemma_scan_core(toks: Seq<Seq<char>>, i: int, a: CurlAcc, b: CurlAcc)
    requires
        core_eq(a, b),
    ensures
        core_eq(curl_scan(toks, i, a), curl_scan(toks, i, b)),
    decreases toks.len() - i,
{
    if i < 0 || i >= toks.len() {
    } else if takes_value(toks[i]) {
        if i + 1 < toks.len() {
            lemma_scan_core(toks, i + 2, apply_flag(a, toks[i], toks[i + 1]), apply_flag(b, toks[i], toks[i + 1]));
        }
    } else {
        lemma_scan_core(toks, i + 1, apply_word(a, toks[i]), apply_word(b, toks[i]));
    }
}

/// The flags the writer uses, and words that do not start with a dash.
proof fn lemma_flag_words(acc: CurlAcc, v: Seq<char>, t: Seq<char>)
    ensures
        takes_value(seq!['-', 'X']),
        apply_flag(acc, seq!['-', 'X'], v) == (CurlAcc { method: Some(crate::domain::method_from_upper(uppercase(v))), ..acc }),
        takes_value(seq!['-', 'H']),
        core_eq(apply_flag(acc, seq!['-', 'H'], v), acc),
        apply_flag(acc, seq!['-', 'H'], v) == (match header_of(v) {
            Some(h) => CurlAcc { headers: acc.headers.push(h), ..acc },
            None => acc,
        }),
        takes_value(seq!['-', 'd']),
        apply_flag(acc, seq!['-', 'd'], v) == (CurlAcc {
            body: Some(v),
            method: if acc.method is None {
                Some(crate::domain::HttpMethod::Post)
            } else {
                acc.method
            },
            ..acc
        }),
        t.len() > 0 && t[0] != '-' ==> !takes_value(t) && !is_get_flag(t) && !is_ignored_flag(t) && !starts_with(
            t,
            "-"@,
        ),
{
    reveal_strlit("-X");
    reveal_strlit("--request");
    reveal_strlit("-H");
    reveal_strlit("--header");
    reveal_strlit("-d");
    reveal_strlit("--data");
    reveal_strlit("--data-raw");
    reveal_strlit("--data-binary");
    reveal_strlit("-F");
    reveal_strlit("--form");
    reveal_strlit("-u");
    reveal_strlit("--user");
    reveal_strlit("--url");
    reveal_strlit("-G");
    reveal_strlit("--get");
    reveal_strlit("-k");
    reveal_strlit("--insecure");
    reveal_strlit("--compressed");
    reveal_strlit("-s");
    reveal_strlit("--silent");
    reveal_strlit("-S");
    reveal_strlit("--show-error");
    reveal_strlit("-v");
    reveal_strlit("--verbose");
    reveal_strlit("-L");
    reveal_strlit("--location");
    reveal_strlit("-i");
    reveal_strlit("--include");
    reveal_strlit("-I");
    reveal_strlit("--head");
    reveal_strlit("-");
    assert("-X"@ =~= seq!['-', 'X']);
    assert("-H"@ =~= seq!['-', 'H']);
    assert("-d"@ =~= seq!['-', 'd']);
    assert(seq!['-', 'H'] != "-X"@) by {
        assert(seq!['-', 'H'][1] != "-X"@[1]);
    }
    assert(seq!['-', 'd'] != "-X"@) by {
        assert(seq!['-', 'd'][1] != "-X"@[1]);
    }
    assert(seq!['-', 'd'] != "-H"@) by {
        assert(seq!['-', 'd'][1] != "-H"@[1]);
    }
    if t.len() > 0 && t[0] != '-' {
        assert(t != "-X"@);
        assert(t != "--request"@);
        assert(t != "-H"@);
        assert(t != "--header"@);
        assert(t != "-d"@);
        assert(t != "--data"@);
        assert(t != "--data-raw"@);
        assert(t != "--data-binary"@);
        assert(t != "-F"@);
        assert(t != "--form"@);
        assert(t != "-u"@);
        assert(t != "--user"@);
        assert(t != "--url"@);
        assert(t != "-G"@);
        assert(t != "--get"@);
        assert(t != "-k"@);
        assert(t != "--insecure"@);
        assert(t != "--compressed"@);
        assert(t != "-s"@);
        assert(t != "--silent"@);
        assert(t != "-S"@);
        assert(t != "--show-error"@);
        assert(t != "-v"@);
        assert(t != "--verbose"@);
        assert(t != "-L"@);
        assert(t != "--location"@);
        assert(t != "-i"@);
        assert(t != "--include"@);
        assert(t != "-I"@);
        assert(t != "--head"@);
        if starts_with(t, "-"@) {
            assert(t.take(1)[0] == t[0]);
        }
    }
}

/// Scanning the header words changes neither method, URL nor body.
proof fn lemma_scan_headers(toks: Seq<Seq<char>>, base: int, n: int, j: int, acc: CurlAcc)
    requires
        0 <= j <= n,
        0 <= base,
        base + 2 * n <= toks.len(),
        forall|k: int| 0 <= k < n ==> #[trigger] toks[base + 2 * k] == seq!['-', 'H'],
    ensures
        core_eq(curl_scan(toks, base + 2 * j, acc), curl_scan(toks, base + 2 * n, acc)),
    decreases n - j,
{
    if j < n {
        let t = toks[base + 2 * j];
        let v = toks[base + 2 * j + 1];
        lemma_flag_words(acc, v, t);
        let next = apply_flag(acc, t, v);
        assert(curl_scan(toks, base + 2 * j, acc) == curl_scan(toks, base + 2 * (j + 1), next));
        lemma_scan_headers(toks, base, n, j + 1, next);
        lemma_scan_core(toks, base + 2 * n, next, acc);
    }
}


/// A method's name is a plain word.
proof fn lemma_method_plain(m: crate::domain::HttpMethod)
    ensures
        plain_word(method_name(m)),
        method_name(m).len() > 0,
        lacks(method_name(m), '\\'),
{
    reveal_strlit("GET");
    reveal_strlit("POST");
    reveal_strlit("PUT");
    reveal_strlit("DELETE");
    reveal_strlit("PATCH");
    reveal_strlit("HEAD");
    reveal_strlit("OPTIONS");
    let n = method_name(m);
    assert forall|i: int| 0 <= i < n.len() implies plain_char(n[i]) && n[i] != '\\' by {
        match m {
            crate::domain::HttpMethod::Get => assert("GET"@ =~= seq!['G', 'E', 'T']),
            crate::domain::HttpMethod::Post => assert("POST"@ =~= seq!['P', 'O', 'S', 'T']),
            crate::domain::HttpMethod::Put => assert("PUT"@ =~= seq!['P', 'U', 'T']),
            crate::domain::HttpMethod::Delete => assert("DELETE"@ =~= seq!['D', 'E', 'L', 'E', 'T', 'E']),
            crate::domain::HttpMethod::Patch => assert("PATCH"@ =~= seq!['P', 'A', 'T', 'C', 'H']),
            crate::domain::HttpMethod::Head => assert("HEAD"@ =~= seq!['H', 'E', 'A', 'D']),
            crate::domain::HttpMethod::Options => assert("OPTIONS"@ =~= seq!['O', 'P', 'T', 'I', 'O', 'N', 'S']),
        }
    }
}

/// Texts joined with separators lack a character that each lacks.
proof fn lemma_lacks_with_separators(ps: Seq<Seq<char>>, sep: Seq<char>, c: char)
    requires
        forall|i: int| 0 <= i < ps.len() ==> lacks(#[trigger] ps[i], c),
        lacks(sep, c),
    ensures
        lacks(with_separators(ps, sep), c),
    decreases ps.len(),
{
    if ps.len() > 0 {
        lemma_lacks_with_separators(ps.drop_last(), sep, c);
        assert(lacks(ps.last(), c)) by {
            assert(ps[ps.len() - 1] == ps.last());
        }
        lemma_lacks_concat(with_separators(ps.drop_last(), sep), ps.last(), c);
        lemma_lacks_concat(with_separators(ps.drop_last(), sep) + ps.last(), sep, c);
    }
}

/// The fields that a request's cURL command carries are free of single
/// quotes and backslashes (the characters its quoting and its line
/// continuations give a meaning to), and the URL is not empty and does not
/// start with a dash.
pub open spec fn curl_safe(r: RequestData) -> bool {
    &&& r.url@.len() > 0
    &&& r.url@[0] != '-'
    &&& lacks(r.url@, '\'')
    &&& lacks(r.url@, '\\')
    &&& headers_quotable(r.headers@)
    &&& (r.body@.len() > 0 && method_has_body(r.method)) ==> lacks(r.body@, '\'') && lacks(r.body@, '\\')
}


/// The request sends a body in its cURL command.
pub open spec fn sends_body(r: RequestData) -> bool {
    r.body@.len() > 0 && method_has_body(r.method)
}

/// The command's words before the URL.
pub open spec fn front_parts(r: RequestData) -> Seq<Seq<char>> {
    seq!["curl"@, "-X "@ + method_name(r.method)] + header_parts(r.headers@) + body_parts(r)
}

/// The command's last word: the quoted URL.
pub open spec fn url_piece(r: RequestData) -> Seq<char> {
    "'"@ + escape_sq(r.url@) + "'"@
}

/// The tokens of the body words.
pub open spec fn body_tokens(r: RequestData) -> Seq<Seq<char>> {
    if sends_body(r) {
        seq![seq!['-', 'd'], r.body@]
    } else {
        Seq::empty()
    }
}

/// The tokens the command is read as.
pub open spec fn curl_tokens(r: RequestData) -> Seq<Seq<char>> {
    (seq!["curl"@, seq!['-', 'X'], method_name(r.method)] + header_tokens(r.headers@) + body_tokens(r)).push(r.url@)
}

/// The command's text: already trimmed, starting with `curl`, and with its
/// line continuations turned into blanks.
proof fn lemma_curl_text(r: RequestData)
    requires
        curl_safe(r),
    ensures
        trim(to_curl_spec(r)) == to_curl_spec(r),
        starts_with(to_curl_spec(r), "curl"@),
        join_continuations(to_curl_spec(r)) == with_separators(front_parts(r), blank4()) + url_piece(r),
{
    let m = method_name(r.method);
    let u = r.url@;
    let b = r.body@;
    lemma_method_plain(r.method);
    reveal_strlit("curl");
    reveal_strlit("-X ");
    reveal_strlit("-d '");
    reveal_strlit("'");
    reveal_strlit(" \\\n  ");
    reveal_strlit("\\\n");
    reveal_strlit("\\\r\n");
    reveal_strlit(" ");
    let c = "curl"@;
    assert(c =~= seq!['c', 'u', 'r', 'l']);
    let x = "-X "@ + m;
    let hp = header_parts(r.headers@);
    let bp = body_parts(r);
    lemma_escape_plain(u);
    let upiece = url_piece(r);
    assert(upiece =~= seq!['\''] + u + seq!['\'']);
    let front = front_parts(r);
    let parts = curl_parts(r);
    assert(parts =~= front.push(upiece));
    assert(parts.drop_last() =~= front);
    assert(crate::curl::curl_separator() =~= continuation());
    lemma_join_split(parts, continuation());
    let s = to_curl_spec(r);
    assert(s == with_separators(front, continuation()) + upiece);

    lemma_header_words(Seq::empty(), r.headers@);
    if sends_body(r) {
        lemma_escape_plain(b);
        let dpiece = "-d '"@ + escape_sq(b) + "'"@;
        assert(bp == seq![dpiece]);
        assert(lacks(dpiece, '\\')) by {
            lemma_lacks_concat(seq!['-', 'd', ' ', '\''], b, '\\');
            lemma_lacks_concat(seq!['-', 'd', ' ', '\''] + b, seq!['\''], '\\');
            assert(dpiece =~= seq!['-', 'd', ' ', '\''] + b + seq!['\'']);
        }
    } else {
        assert(bp =~= Seq::<Seq<char>>::empty());
    }
    assert(lacks(x, '\\')) by {
        lemma_lacks_concat(seq!['-', 'X', ' '], m, '\\');
        assert(x =~= seq!['-', 'X', ' '] + m);
    }
    assert forall|i: int| 0 <= i < front.len() implies lacks(#[trigger] front[i], '\\') by {
        if i >= 2 + hp.len() {
            assert(front[i] == bp[i - 2 - hp.len()]);
        } else if i >= 2 {
            assert(front[i] == hp[i - 2]);
        }
    }

    let pat1 = seq!['\\', '\n'];
    let pat2 = seq!['\\', '\r', '\n'];
    let sp = seq![' '];
    assert("\\\n"@ =~= pat1);
    assert("\\\r\n"@ =~= pat2);
    assert(" "@ =~= sp);
    lemma_replace_with_separators(front);
    lemma_replace_concat(with_separators(front, continuation()), upiece, pat1, sp);
    lemma_replace_absent(upiece, pat1, sp);
    let joined = with_separators(front, blank4()) + upiece;
    assert(replace_all(s, pat1, sp) == joined);
    lemma_lacks_with_separators(front, blank4(), '\\');
    lemma_lacks_concat(seq!['\''], u, '\\');
    lemma_lacks_concat(seq!['\''] + u, seq!['\''], '\\');
    lemma_lacks_concat(with_separators(front, blank4()), upiece, '\\');
    lemma_replace_absent(joined, pat2, sp);

    assert(seq![c, x] + hp + bp =~= seq![c, x] + (hp + bp));
    lemma_with_separators_concat(seq![c, x], hp + bp, continuation());
    lemma_with_separators_two(c, x, continuation());
    let rest = continuation() + x + continuation() + with_separators(hp + bp, continuation()) + upiece;
    assert(s =~= c + rest);
    assert(s[0] == 'c');
    assert(s.take(4) =~= c);
    assert(s.last() == '\'');
    assert(!is_white_space('c'));
    assert(!is_white_space('\''));
    assert(trim_start(s) == s);
    assert(trim_end(s) == s);
}

/// The command is read as `curl_tokens`.
proof fn lemma_curl_words(r: RequestData)
    requires
        curl_safe(r),
    ensures
        tok_run(tok_init(), with_separators(front_parts(r), blank4()) + url_piece(r)) == (TokState {
            mode: TokMode::Plain,
            cur: r.url@,
            toks: curl_tokens(r).drop_last(),
        }),
{
    let m = method_name(r.method);
    let u = r.url@;
    let b = r.body@;
    lemma_method_plain(r.method);
    reveal_strlit("curl");
    reveal_strlit("-X ");
    reveal_strlit("-d '");
    reveal_strlit("'");
    let c = "curl"@;
    assert(c =~= seq!['c', 'u', 'r', 'l']);
    let x = "-X "@ + m;
    let hp = header_parts(r.headers@);
    let bp = body_parts(r);
    lemma_escape_plain(u);
    let upiece = url_piece(r);
    assert(upiece =~= seq!['\''] + u + seq!['\'']);
    assert(front_parts(r) =~= seq![c, x] + (hp + bp));
    lemma_with_separators_concat(seq![c, x], hp + bp, blank4());
    lemma_with_separators_concat(hp, bp, blank4());
    lemma_with_separators_two(c, x, blank4());
    let w1 = c + blank4() + x + blank4();
    let w2 = with_separators(hp, blank4());
    let w3 = with_separators(bp, blank4());
    let joined = with_separators(front_parts(r), blank4()) + upiece;
    assert(joined =~= w1 + w2 + w3 + upiece);
    lemma_tok_run_append(tok_init(), w1 + w2 + w3, upiece);
    lemma_tok_run_append(tok_init(), w1 + w2, w3);
    lemma_tok_run_append(tok_init(), w1, w2);
    lemma_tok_run_append(tok_init(), c + blank4(), x + blank4());
    assert(w1 =~= (c + blank4()) + (x + blank4()));
    assert(tok_init() == clean(Seq::empty()));
    assert(plain_word(c));
    lemma_piece_word(Seq::empty(), c);
    assert(Seq::<Seq<char>>::empty().push(c) =~= seq![c]);
    assert(x + blank4() =~= seq!['-', 'X'] + seq![' '] + m + blank4());
    lemma_piece_two_words(seq![c], seq!['-', 'X'], m);
    let t1 = seq![c, seq!['-', 'X'], m];
    assert(seq![c].push(seq!['-', 'X']).push(m) =~= t1);
    lemma_header_words(t1, r.headers@);
    let t2 = t1 + header_tokens(r.headers@);
    let t3 = t2 + body_tokens(r);
    if sends_body(r) {
        lemma_escape_plain(b);
        let dpiece = "-d '"@ + escape_sq(b) + "'"@;
        assert(bp == seq![dpiece]);
        assert(w3 =~= dpiece + blank4()) by {
            assert(seq![dpiece].drop_last() =~= Seq::<Seq<char>>::empty());
            assert(with_separators(Seq::<Seq<char>>::empty(), blank4()) =~= Seq::<char>::empty());
            assert(with_separators(seq![dpiece], blank4()) == with_separators(Seq::<Seq<char>>::empty(), blank4())
                + dpiece + blank4());
        }
        assert(dpiece + blank4() =~= seq!['-', 'd'] + seq![' ', '\''] + b + seq!['\''] + blank4());
        lemma_piece_quoted(t2, seq!['-', 'd'], b);
        assert(t2.push(seq!['-', 'd']).push(b) =~= t3);
    } else {
        assert(bp =~= Seq::<Seq<char>>::empty());
        assert(w3 =~= Seq::<char>::empty());
        assert(t3 =~= t2);
    }
    lemma_piece_url(t3, u);
    assert(curl_tokens(r).drop_last() =~= t3);
}

/// Scanning the command's tokens finds the request's method, URL and body.
proof fn lemma_curl_scan(r: RequestData)
    requires
        curl_safe(r),
    ensures
        ({
            let acc = curl_scan(curl_tokens(r), 1, curl_acc_init());
            &&& !acc.is_data_get
            &&& acc.method == Some(r.method)
            &&& acc.url == Some(r.url@)
            &&& acc.body == if sends_body(r) {
                Some(r.body@)
            } else {
                None
            }
        }),
{
    let m = method_name(r.method);
    let u = r.url@;
    let b = r.body@;
    lemma_method_name_upper(r.method);
    lemma_header_words(Seq::empty(), r.headers@);
    let toks = curl_tokens(r);
    let ht = header_tokens(r.headers@);
    let t3 = seq!["curl"@, seq!['-', 'X'], m] + ht + body_tokens(r);
    let n: int = (ht.len() / 2) as int;
    let init = curl_acc_init();
    assert(toks[1] == seq!['-', 'X']);
    assert(toks[2] == m);
    lemma_flag_words(init, m, u);
    assert(uppercase(m) == m);
    let acc1 = CurlAcc { method: Some(r.method), ..init };
    assert(curl_scan(toks, 1, init) == curl_scan(toks, 3, acc1));
    assert forall|k: int| 0 <= k < n implies #[trigger] toks[3 + 2 * k] == seq!['-', 'H'] by {
        assert(toks[3 + 2 * k] == ht[2 * k]);
    }
    lemma_scan_headers(toks, 3, n, 0, acc1);
    let i2: int = 3 + ht.len() as int;
    assert(2 * n == ht.len());
    let i3 = t3.len() as int;
    assert(toks[i3] == u);
    let fin = if sends_body(r) {
        CurlAcc { body: Some(b), url: Some(u), ..acc1 }
    } else {
        CurlAcc { url: Some(u), ..acc1 }
    };
    if sends_body(r) {
        assert(toks[i2] == seq!['-', 'd']);
        assert(toks[i2 + 1] == b);
        lemma_flag_words(acc1, b, u);
        let acc2 = CurlAcc { body: Some(b), ..acc1 };
        assert(curl_scan(toks, i2, acc1) == curl_scan(toks, i2 + 2, acc2));
        assert(i2 + 2 == i3);
        assert(curl_scan(toks, i3, acc2) == curl_scan(toks, i3 + 1, apply_word(acc2, u)));
        assert(apply_word(acc2, u) == fin);
    } else {
        assert(i2 == i3);
        assert(curl_scan(toks, i3, acc1) == curl_scan(toks, i3 + 1, apply_word(acc1, u)));
        assert(apply_word(acc1, u) == fin);
    }
}

/// A request written as a cURL command and read back gives the same method
/// and URL, and the body the command carries: the request's body when the
/// method sends one and it is not empty.
pub proof fn lemma_curl_roundtrip(r: RequestData)
    requires
        curl_safe(r),
    ensures
        parse_curl_spec(to_curl_spec(r)) matches Some(p) && p.method == r.method && p.url == r.url@ && p.body == (
        if r.body@.len() > 0 && method_has_body(r.method) {
            Some(r.body@)
        } else {
            None
        }),
{
    lemma_curl_text(r);
    lemma_curl_words(r);
    lemma_curl_scan(r);
    let s = to_curl_spec(r);
    assert(tokenize_spec(s) == Some(curl_tokens(r))) by {
        assert(curl_tokens(r).drop_last().push(r.url@) =~= curl_tokens(r));
    }
}

/// The emitted headers, each as its name and value, in order.
pub open spec fn emitted_views(hs: Seq<KeyValuePair>) -> Seq<(Seq<char>, Seq<char>)>
    decreases hs.len(),
{
    if hs.len() == 0 {
        Seq::empty()
    } else {
        let prev = emitted_views(hs.drop_last());
        let h = hs.last();
        if emitted(h) {
            prev.push((h.key@, h.value@))
        } else {
            prev
        }
    }
}

/// The emitted headers read back as written: their names hold no colon, and
/// neither names nor values start or end with white space.
pub open spec fn headers_readable(hs: Seq<KeyValuePair>) -> bool {
    forall|i: int|
        0 <= i < hs.len() && emitted(#[trigger] hs[i]) ==> lacks(hs[i].key@, ':') && trim(hs[i].key@) == hs[i].key@
            && trim(hs[i].value@) == hs[i].value@
}

/// A header text `name: value` is read back as the name and the value.
proof fn lemma_header_text(k: Seq<char>, v: Seq<char>)
    requires
        lacks(k, ':'),
        trim(k) == k,
        trim(v) == v,
    ensures
        header_of(k + seq![':', ' '] + v) == Some((k, v)),
{
    let x = k + seq![':', ' '] + v;
    lemma_split_once_at(x, ':', k.len() as int);
    assert(x.take(k.len() as int) =~= k);
    let rest = x.skip(k.len() as int + 1);
    assert(rest =~= seq![' '] + v);
    assert(rest.drop_first() =~= v);
    assert(is_white_space(' '));
    assert(trim_start(rest) == trim_start(v));
}

/// Scanning the header words adds the emitted headers, in order, and changes
/// nothing else.
proof fn lemma_scan_header_tokens(toks: Seq<Seq<char>>, base: int, hs: Seq<KeyValuePair>, acc: CurlAcc)
    requires
        headers_readable(hs),
        0 <= base,
        base + header_tokens(hs).len() <= toks.len(),
        toks.subrange(base, base + header_tokens(hs).len()) == header_tokens(hs),
    ensures
        curl_scan(toks, base, acc) == curl_scan(
            toks,
            base + header_tokens(hs).len(),
            CurlAcc { headers: acc.headers + emitted_views(hs), ..acc },
        ),
    decreases hs.len(),
{
    if hs.len() == 0 {
        assert(acc.headers + emitted_views(hs) =~= acc.headers);
    } else {
        let rest = hs.drop_last();
        let h = hs.last();
        assert(headers_readable(rest)) by {
            assert forall|i: int| 0 <= i < rest.len() && emitted(#[trigger] rest[i]) implies lacks(rest[i].key@, ':')
                && trim(rest[i].key@) == rest[i].key@ && trim(rest[i].value@) == rest[i].value@ by {
                assert(rest[i] == hs[i]);
            }
        }
        let l1 = header_tokens(rest).len() as int;
        assert(toks.subrange(base, base + l1) =~= header_tokens(rest)) by {
            assert(toks.subrange(base, base + l1) =~= toks.subrange(base, base + header_tokens(hs).len()).subrange(0, l1));
            if emitted(h) {
                assert(header_tokens(hs).subrange(0, l1) =~= header_tokens(rest));
            }
        }
        lemma_scan_header_tokens(toks, base, rest, acc);
        let acc1 = CurlAcc { headers: acc.headers + emitted_views(rest), ..acc };
        if emitted(h) {
            assert(hs[hs.len() - 1] == h);
            let x = h.key@ + seq![':', ' '] + h.value@;
            assert(toks[base + l1] == header_tokens(hs)[l1]);
            assert(toks[base + l1 + 1] == header_tokens(hs)[l1 + 1]);
            assert(toks[base + l1] == seq!['-', 'H']);
            assert(toks[base + l1 + 1] == x);
            lemma_flag_words(acc1, x, x);
            lemma_header_text(h.key@, h.value@);
            assert(curl_scan(toks, base + l1, acc1) == curl_scan(toks, base + l1 + 2, apply_flag(acc1, toks[base + l1], toks[base + l1 + 1])));
            assert(acc1.headers.push((h.key@, h.value@)) =~= acc.headers + emitted_views(hs));
        } else {
            assert(acc1.headers =~= acc.headers + emitted_views(hs));
        }
    }
}

/// Scanning the command's tokens finds the request's method, URL, body and
/// emitted headers, and no user or form.
proof fn lemma_curl_scan_full(r: RequestData)
    requires
        curl_safe(r),
        headers_readable(r.headers@),
    ensures
        ({
            let acc = curl_scan(curl_tokens(r), 1, curl_acc_init());
            &&& acc.headers == emitted_views(r.headers@)
            &&& acc.basic_auth is None
            &&& !acc.is_multipart
        }),
{
    let m = method_name(r.method);
    let u = r.url@;
    let b = r.body@;
    lemma_method_name_upper(r.method);
    lemma_header_words(Seq::empty(), r.headers@);
    let toks = curl_tokens(r);
    let ht = header_tokens(r.headers@);
    let t3 = seq!["curl"@, seq!['-', 'X'], m] + ht + body_tokens(r);
    let init = curl_acc_init();
    assert(toks[1] == seq!['-', 'X']);
    assert(toks[2] == m);
    lemma_flag_words(init, m, u);
    let acc1 = CurlAcc { method: Some(r.method), ..init };
    assert(uppercase(m) == m);
    assert(curl_scan(toks, 1, init) == curl_scan(toks, 3, acc1));
    assert(toks.subrange(3, 3 + ht.len() as int) =~= ht);
    lemma_scan_header_tokens(toks, 3, r.headers@, acc1);
    let acc2 = CurlAcc { headers: acc1.headers + emitted_views(r.headers@), ..acc1 };
    assert(acc2.headers =~= emitted_views(r.headers@));
    let i2: int = 3 + ht.len() as int;
    let i3 = t3.len() as int;
    assert(toks[i3] == u);
    lemma_flag_words(acc2, b, u);
    if sends_body(r) {
        assert(toks[i2] == seq!['-', 'd']);
        assert(toks[i2 + 1] == b);
        let acc3 = CurlAcc {
            body: Some(b),
            method: if acc2.method is None {
                Some(crate::domain::HttpMethod::Post)
            } else {
                acc2.method
            },
            ..acc2
        };
        assert(curl_scan(toks, i2, acc2) == curl_scan(toks, i2 + 2, acc3));
        assert(i2 + 2 == i3);
        lemma_flag_words(acc3, b, u);
        assert(curl_scan(toks, i3, acc3) == curl_scan(toks, i3 + 1, apply_word(acc3, u)));
    } else {
        assert(i2 == i3);
        assert(curl_scan(toks, i3, acc2) == curl_scan(toks, i3 + 1, apply_word(acc2, u)));
    }
}

/// A request written as a cURL command and read back gives the same method
/// and URL, the body the command carries, and its enabled, named headers in
/// order (when their names hold no colon and names and values no surrounding
/// white space), with no user and no form.
pub proof fn lemma_curl_full_roundtrip(r: RequestData)
    requires
        curl_safe(r),
        headers_readable(r.headers@),
    ensures
        parse_curl_spec(to_curl_spec(r)) matches Some(p) && p.method == r.method && p.url == r.url@ && p.body == (
        if r.body@.len() > 0 && method_has_body(r.method) {
            Some(r.body@)
        } else {
            None
        }) && p.headers == emitted_views(r.headers@) && p.basic_auth is None && !p.is_multipart,
{
    lemma_curl_roundtrip(r);
    lemma_curl_scan_full(r);
    lemma_curl_text(r);
    lemma_curl_words(r);
    let s = to_curl_spec(r);
    assert(tokenize_spec(s) == Some(curl_tokens(r))) by {
        assert(curl_tokens(r).drop_last().push(r.url@) =~= curl_tokens(r));
    }
}

} // verus!
