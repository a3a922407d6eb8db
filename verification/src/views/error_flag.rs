//! The error flag of a span's markup is the only one there: a message span's
//! markup never carries the `data-has-error` value opposite to its own.
//!
//! The argument: an attribute `data-has-error="…"` in the markup needs a
//! double quote right after `data-has-error=`. Escaped text holds no double
//! quote, so that quote comes from the template's literal text, and every
//! double quote there but the span's own flag is ruled out by a character
//! next to it.

use vstd::prelude::*;

use crate::markup::{
    digit_char, has_infix, html_escape, int_decimal, lemma_escaped_text_has_no_markup, nat_digits,
};
use crate::models::SpanView;
use crate::numfmt::{duration_text, fixed_point_text, float_quotient_text, fraction_digits};
use crate::views::trace::{
    content_markup, error_attribute, error_flag, input_tokens_markup, is_error, is_tool_kind,
    kind_name, lemma_span_error_flag, meta_duration_markup, model_markup, output_tokens_markup,
    span_markup, span_meta_markup, span_open_markup,
};

verus! {

/// No double quote in a text.
pub open spec fn quote_free(s: Seq<char>) -> bool {
    forall|i: int| 0 <= i < s.len() ==> #[trigger] s[i] != '"'
}

/// The double quote at `i` in `x` cannot be the one after the attribute name
/// of `pat`: the character after it, or the one fifteen before it, in `x`
/// itself, differs from `pat`'s.
pub open spec fn quote_ruled_out(x: Seq<char>, pat: Seq<char>, i: int) -> bool {
    ||| i + 1 < x.len() && x[i + 1] != pat[16]
    ||| i >= 15 && x[i - 15] != pat[0]
}

/// Every double quote of `x` is ruled out.
pub open spec fn quotes_ruled_out(x: Seq<char>, pat: Seq<char>) -> bool {
    forall|i: int| 0 <= i < x.len() && #[trigger] x[i] == '"' ==> quote_ruled_out(x, pat, i)
}

/// Every double quote of `x` before `n` is ruled out (checked one by one).
pub open spec fn quotes_ruled_out_before(x: Seq<char>, pat: Seq<char>, n: nat) -> bool
    decreases n,
{
    if n == 0 {
        true
    } else {
        quotes_ruled_out_before(x, pat, (n - 1) as nat) && (x[n - 1] == '"' ==> quote_ruled_out(
            x,
            pat,
            n - 1,
        ))
    }
}

/// No double quote before `n` in `x` (checked one by one).
pub open spec fn quote_free_before(x: Seq<char>, n: nat) -> bool
    decreases n,
{
    if n == 0 {
        true
    } else {
        quote_free_before(x, (n - 1) as nat) && x[n - 1] != '"'
    }
}

proof fn lemma_ruled_out_before(x: Seq<char>, pat: Seq<char>, n: nat)
    requires
        n <= x.len(),
        quotes_ruled_out_before(x, pat, n),
    ensures
        forall|i: int| 0 <= i < n && #[trigger] x[i] == '"' ==> quote_ruled_out(x, pat, i),
    decreases n,
{
    if n > 0 {
        lemma_ruled_out_before(x, pat, (n - 1) as nat);
    }
}

proof fn lemma_quote_free_before(x: Seq<char>, n: nat)
    requires
        n <= x.len(),
        quote_free_before(x, n),
    ensures
        forall|i: int| 0 <= i < n ==> #[trigger] x[i] != '"',
    decreases n,
{
    if n > 0 {
        lemma_quote_free_before(x, (n - 1) as nat);
    }
}

proof fn lemma_quote_free_join(a: Seq<char>, b: Seq<char>)
    requires
        quote_free(a),
        quote_free(b),
    ensures
        quote_free(a + b),
{
    assert forall|i: int| 0 <= i < (a + b).len() implies #[trigger] (a + b)[i] != '"' by {
        if i < a.len() {
            assert((a + b)[i] == a[i]);
        } else {
            assert((a + b)[i] == b[i - a.len()]);
        }
    }
}

proof fn lemma_quote_free_escape(s: Seq<char>)
    ensures
        quote_free(html_escape(s)),
{
    lemma_escaped_text_has_no_markup(s);
}

proof fn lemma_quote_free_digits(n: nat)
    ensures
        quote_free(nat_digits(n)),
    decreases n,
{
    if n >= 10 {
        lemma_quote_free_digits(n / 10);
        lemma_quote_free_join(nat_digits(n / 10), seq![digit_char(n % 10)]);
    }
}

proof fn lemma_quote_free_decimal(n: int)
    ensures
        quote_free(int_decimal(n)),
{
    if n < 0 {
        lemma_quote_free_digits((-n) as nat);
        lemma_quote_free_join(seq!['-'], nat_digits((-n) as nat));
    } else {
        lemma_quote_free_digits(n as nat);
    }
}

proof fn lemma_quote_free_fraction(f: nat, p: nat)
    ensures
        quote_free(fraction_digits(f, p)),
    decreases p,
{
    if p > 0 {
        lemma_quote_free_fraction(f / 10, (p - 1) as nat);
        lemma_quote_free_join(fraction_digits(f / 10, (p - 1) as nat), seq![digit_char(f % 10)]);
    }
}

proof fn lemma_quote_free_fixed_point(a: nat, b: nat, p: nat)
    ensures
        quote_free(fixed_point_text(a, b, p)),
{
    let r = crate::numfmt::round_half_even(a * crate::numfmt::pow10(p), b);
    let w = nat_digits(r / crate::numfmt::pow10(p));
    let f = fraction_digits(r % crate::numfmt::pow10(p), p);
    lemma_quote_free_digits(r / crate::numfmt::pow10(p));
    lemma_quote_free_fraction(r % crate::numfmt::pow10(p), p);
    lemma_quote_free_join(w, seq!['.']);
    lemma_quote_free_join(w + seq!['.'], f);
}

proof fn lemma_quote_free_literal(x: Seq<char>)
    requires
        quote_free_before(x, x.len()),
    ensures
        quote_free(x),
{
    lemma_quote_free_before(x, x.len());
}

proof fn lemma_quote_free_duration(ms: int)
    ensures
        quote_free(duration_text(ms)),
{
    reveal_strlit("ms");
    reveal_strlit("s");
    reveal_strlit("m ");
    reveal_with_fuel(quote_free_before, 3);
    lemma_quote_free_literal("ms"@);
    lemma_quote_free_literal("s"@);
    lemma_quote_free_literal("m "@);
    if ms < 1000 {
        lemma_quote_free_decimal(ms);
        lemma_quote_free_join(int_decimal(ms), "ms"@);
    } else if ms < 60_000 {
        let (a, b) = crate::numfmt::binary64_of_ratio(ms as nat, 1000);
        lemma_quote_free_fixed_point(a, b, 2);
        assert(float_quotient_text(ms as nat, 1000, 2) == fixed_point_text(a, b, 2));
        lemma_quote_free_join(float_quotient_text(ms as nat, 1000, 2), "s"@);
    } else {
        lemma_quote_free_decimal(ms / 60_000);
        lemma_quote_free_decimal((ms % 60_000) / 1000);
        lemma_quote_free_join(int_decimal(ms / 60_000), "m "@);
        lemma_quote_free_join(int_decimal(ms / 60_000) + "m "@, int_decimal((ms % 60_000) / 1000));
        lemma_quote_free_join(
            int_decimal(ms / 60_000) + "m "@ + int_decimal((ms % 60_000) / 1000),
            "s"@,
        );
    }
}

proof fn lemma_quote_free_wrapped(open: Seq<char>, inner: Seq<char>, close: Seq<char>)
    requires
        quote_free(open),
        quote_free(inner),
        quote_free(close),
    ensures
        quote_free(open + inner + close),
{
    lemma_quote_free_join(open, inner);
    lemma_quote_free_join(open + inner, close);
}

/// The details in a span's header hold no double quote.
proof fn lemma_quote_free_meta(s: SpanView)
    ensures
        quote_free(span_meta_markup(s)),
{
    reveal_strlit("<small>");
    reveal_strlit("</small>");
    reveal_strlit("<small> \u{b7} ");
    reveal_strlit(" in</small>");
    reveal_strlit("<small> / ");
    reveal_strlit(" out</small>");
    reveal_with_fuel(quote_free_before, 13);
    lemma_quote_free_literal("<small>"@);
    lemma_quote_free_literal("</small>"@);
    lemma_quote_free_literal("<small> \u{b7} "@);
    lemma_quote_free_literal(" in</small>"@);
    lemma_quote_free_literal("<small> / "@);
    lemma_quote_free_literal(" out</small>"@);
    let empty = Seq::<char>::empty();
    assert(quote_free(empty));
    match s.model {
        Some(m) => {
            lemma_quote_free_escape(m);
            lemma_quote_free_wrapped("<small>"@, html_escape(m), "</small>"@);
        },
        None => {},
    }
    match s.duration_ms {
        Some(d) => {
            lemma_quote_free_duration(d as int);
            lemma_quote_free_wrapped("<small> \u{b7} "@, duration_text(d as int), "</small>"@);
        },
        None => {},
    }
    match s.input_tokens {
        Some(n) => {
            lemma_quote_free_decimal(n as int);
            lemma_quote_free_wrapped("<small> \u{b7} "@, int_decimal(n as int), " in</small>"@);
        },
        None => {},
    }
    match s.output_tokens {
        Some(n) => {
            lemma_quote_free_decimal(n as int);
            lemma_quote_free_wrapped("<small> / "@, int_decimal(n as int), " out</small>"@);
        },
        None => {},
    }
    lemma_quote_free_join(model_markup(s.model), meta_duration_markup(s.duration_ms));
    lemma_quote_free_join(
        model_markup(s.model) + meta_duration_markup(s.duration_ms),
        input_tokens_markup(s.input_tokens),
    );
    lemma_quote_free_join(
        model_markup(s.model) + meta_duration_markup(s.duration_ms) + input_tokens_markup(
            s.input_tokens,
        ),
        output_tokens_markup(s.output_tokens),
    );
}

/// Ruling out is kept by putting texts one after the other: each double
/// quote keeps the neighbour that rules it out.
proof fn lemma_ruled_out_join(a: Seq<char>, b: Seq<char>, pat: Seq<char>)
    requires
        pat.len() > 16,
        quotes_ruled_out(a, pat),
        quotes_ruled_out(b, pat),
    ensures
        quotes_ruled_out(a + b, pat),
{
    let m = a + b;
    assert forall|i: int| 0 <= i < m.len() && #[trigger] m[i] == '"' implies quote_ruled_out(
        m,
        pat,
        i,
    ) by {
        if i < a.len() {
            assert(a[i] == '"');
            if i + 1 < a.len() && a[i + 1] != pat[16] {
                assert(m[i + 1] == a[i + 1]);
            } else {
                assert(m[i - 15] == a[i - 15]);
            }
        } else {
            let k = i - a.len();
            assert(b[k] == '"');
            if k + 1 < b.len() && b[k + 1] != pat[16] {
                assert(m[i + 1] == b[k + 1]);
            } else {
                assert(m[i - 15] == b[k - 15]);
            }
        }
    }
}

/// A text whose double quotes are all ruled out holds no `pat`.
proof fn lemma_ruled_out_no_infix(m: Seq<char>, pat: Seq<char>)
    requires
        pat.len() > 16,
        pat[15] == '"',
        quotes_ruled_out(m, pat),
    ensures
        !has_infix(m, pat),
{
    if has_infix(m, pat) {
        let j = choose|j: int|
            0 <= j && j + pat.len() <= m.len() && #[trigger] m.subrange(j, j + pat.len()) == pat;
        let w = m.subrange(j, j + pat.len());
        assert(w[0] == m[j]);
        assert(w[15] == m[j + 15]);
        assert(w[16] == m[j + 16]);
        assert(m[j + 15] == '"');
        assert(quote_ruled_out(m, pat, j + 15));
    }
}

proof fn lemma_quote_free_ruled_out(x: Seq<char>, pat: Seq<char>)
    requires
        quote_free(x),
    ensures
        quotes_ruled_out(x, pat),
{
}

proof fn lemma_literal_ruled_out(x: Seq<char>, pat: Seq<char>)
    requires
        quotes_ruled_out_before(x, pat, x.len()),
    ensures
        quotes_ruled_out(x, pat),
{
    lemma_ruled_out_before(x, pat, x.len());
}

// Each literal piece of a message span's template rules out its double
// quotes, checked character by character.
proof fn lemma_ruled_out_l1(b: bool)
    ensures
        quotes_ruled_out("<div class=\"span\" data-kind=\""@, error_attribute(b)),
{
    reveal_strlit("data-has-error=\"true\"");
    reveal_strlit("data-has-error=\"false\"");
    reveal_strlit("<div class=\"span\" data-kind=\"");
    reveal_with_fuel(quotes_ruled_out_before, 50);
    lemma_literal_ruled_out("<div class=\"span\" data-kind=\""@, error_attribute(b));
}

proof fn lemma_ruled_out_l2(b: bool)
    ensures
        quotes_ruled_out("\" data-span-id=\""@, error_attribute(b)),
{
    reveal_strlit("data-has-error=\"true\"");
    reveal_strlit("data-has-error=\"false\"");
    reveal_strlit("\" data-span-id=\"");
    reveal_with_fuel(quotes_ruled_out_before, 50);
    lemma_literal_ruled_out("\" data-span-id=\""@, error_attribute(b));
}

proof fn lemma_ruled_out_l4(b: bool)
    ensures
        quotes_ruled_out("\">"@, error_attribute(b)),
{
    reveal_strlit("data-has-error=\"true\"");
    reveal_strlit("data-has-error=\"false\"");
    reveal_strlit("\">");
    reveal_with_fuel(quotes_ruled_out_before, 50);
    lemma_literal_ruled_out("\">"@, error_attribute(b));
}

proof fn lemma_ruled_out_l5(b: bool)
    ensures
        quotes_ruled_out("<div class=\"span-header\"><span class=\"span-kind\">"@, error_attribute(b)),
{
    reveal_strlit("data-has-error=\"true\"");
    reveal_strlit("data-has-error=\"false\"");
    reveal_strlit("<div class=\"span-header\"><span class=\"span-kind\">");
    reveal_with_fuel(quotes_ruled_out_before, 50);
    lemma_literal_ruled_out("<div class=\"span-header\"><span class=\"span-kind\">"@, error_attribute(b));
}

proof fn lemma_ruled_out_l6(b: bool)
    ensures
        quotes_ruled_out("</span><div class=\"span-meta\">"@, error_attribute(b)),
{
    reveal_strlit("data-has-error=\"true\"");
    reveal_strlit("data-has-error=\"false\"");
    reveal_strlit("</span><div class=\"span-meta\">");
    reveal_with_fuel(quotes_ruled_out_before, 50);
    lemma_literal_ruled_out("</span><div class=\"span-meta\">"@, error_attribute(b));
}

proof fn lemma_ruled_out_l7(b: bool)
    ensures
        quotes_ruled_out("</div></div>"@, error_attribute(b)),
{
    reveal_strlit("data-has-error=\"true\"");
    reveal_strlit("data-has-error=\"false\"");
    reveal_strlit("</div></div>");
    reveal_with_fuel(quotes_ruled_out_before, 50);
    lemma_literal_ruled_out("</div></div>"@, error_attribute(b));
}

proof fn lemma_ruled_out_c1(b: bool)
    ensures
        quotes_ruled_out("<div class=\"span-content\">"@, error_attribute(b)),
{
    reveal_strlit("data-has-error=\"true\"");
    reveal_strlit("data-has-error=\"false\"");
    reveal_strlit("<div class=\"span-content\">");
    reveal_with_fuel(quotes_ruled_out_before, 50);
    lemma_literal_ruled_out("<div class=\"span-content\">"@, error_attribute(b));
}

proof fn lemma_ruled_out_close(b: bool)
    ensures
        quotes_ruled_out("</div>"@, error_attribute(b)),
{
    reveal_strlit("data-has-error=\"true\"");
    reveal_strlit("data-has-error=\"false\"");
    reveal_strlit("</div>");
    reveal_with_fuel(quotes_ruled_out_before, 50);
    lemma_literal_ruled_out("</div>"@, error_attribute(b));
}

proof fn lemma_ruled_out_flag(own: bool)
    ensures
        quotes_ruled_out("\" data-has-error=\""@ + error_flag(own), error_attribute(!own)),
{
    reveal_strlit("data-has-error=\"true\"");
    reveal_strlit("data-has-error=\"false\"");
    reveal_strlit("true");
    reveal_strlit("false");
    reveal_strlit("\" data-has-error=\"");
    reveal_with_fuel(quotes_ruled_out_before, 25);
    lemma_literal_ruled_out("\" data-has-error=\""@ + error_flag(own), error_attribute(!own));
}

/// The markup of a span that is not a tool span carries exactly one
/// `data-has-error` value, its own: `"true"` and never `"false"` on an error
/// span, `"false"` and never `"true"` on another.
pub proof fn lemma_single_error_flag(s: SpanView)
    requires
        !is_tool_kind(s.kind),
    ensures
        has_infix(span_markup(s), error_attribute(is_error(s))),
        !has_infix(span_markup(s), error_attribute(!is_error(s))),
{
    lemma_span_error_flag(s);
    let b = is_error(s);
    let pat = error_attribute(!b);
    reveal_strlit("data-has-error=\"true\"");
    reveal_strlit("data-has-error=\"false\"");
    let l1 = "<div class=\"span\" data-kind=\""@;
    let l2 = "\" data-span-id=\""@;
    let l3 = "\" data-has-error=\""@ + error_flag(b);
    let l4 = "\">"@;
    let l5 = "<div class=\"span-header\"><span class=\"span-kind\">"@;
    let l6 = "</span><div class=\"span-meta\">"@;
    let l7 = "</div></div>"@;
    let c1 = "<div class=\"span-content\">"@;
    let close = "</div>"@;
    lemma_ruled_out_l1(!b);
    lemma_ruled_out_l2(!b);
    lemma_ruled_out_flag(b);
    lemma_ruled_out_l4(!b);
    lemma_ruled_out_l5(!b);
    lemma_ruled_out_l6(!b);
    lemma_ruled_out_l7(!b);
    lemma_ruled_out_c1(!b);
    lemma_ruled_out_close(!b);
    let ek = html_escape(kind_name(s.kind));
    let eid = html_escape(s.id);
    let meta = span_meta_markup(s);
    lemma_quote_free_escape(kind_name(s.kind));
    lemma_quote_free_escape(s.id);
    lemma_quote_free_meta(s);
    lemma_quote_free_ruled_out(ek, pat);
    lemma_quote_free_ruled_out(eid, pat);
    lemma_quote_free_ruled_out(meta, pat);
    // The opening tag, with the span's own flag kept next to its attribute.
    lemma_ruled_out_join(l1, ek, pat);
    lemma_ruled_out_join(l1 + ek, l2, pat);
    lemma_ruled_out_join(l1 + ek + l2, eid, pat);
    let pre = l1 + ek + l2 + eid;
    lemma_ruled_out_join(pre, l3, pat);
    assert(pre + "\" data-has-error=\""@ + error_flag(b) =~= pre + l3);
    lemma_ruled_out_join(pre + l3, l4, pat);
    let open = span_open_markup(kind_name(s.kind), s.id, b);
    assert(open == pre + l3 + l4);
    // The header.
    lemma_ruled_out_join(open, l5, pat);
    lemma_ruled_out_join(open + l5, ek, pat);
    lemma_ruled_out_join(open + l5 + ek, l6, pat);
    lemma_ruled_out_join(open + l5 + ek + l6, meta, pat);
    lemma_ruled_out_join(open + l5 + ek + l6 + meta, l7, pat);
    let header = open + l5 + ek + l6 + meta + l7;
    // The content and the closing tag.
    let content = content_markup(s.content);
    match s.content {
        Some(c) => {
            lemma_quote_free_escape(c);
            lemma_quote_free_ruled_out(html_escape(c), pat);
            lemma_ruled_out_join(c1, html_escape(c), pat);
            lemma_ruled_out_join(c1 + html_escape(c), close, pat);
        },
        None => {
            lemma_quote_free_ruled_out(Seq::<char>::empty(), pat);
        },
    }
    lemma_ruled_out_join(header, content, pat);
    lemma_ruled_out_join(header + content, close, pat);
    assert(span_markup(s) == header + content + close);
    lemma_ruled_out_no_infix(span_markup(s), pat);
}

} // verus!
