//! Text building blocks: decimal numerals, HTML escaping and rendered markup.

use vstd::prelude::*;

verus! {

/// The character of a decimal digit.
pub open spec fn digit_char(d: nat) -> char {
    if d == 0 { '0' }
    else if d == 1 { '1' }
    else if d == 2 { '2' }
    else if d == 3 { '3' }
    else if d == 4 { '4' }
    else if d == 5 { '5' }
    else if d == 6 { '6' }
    else if d == 7 { '7' }
    else if d == 8 { '8' }
    else { '9' }
}

/// The decimal numeral of a natural number, without leading zeros.
pub open spec fn nat_digits(n: nat) -> Seq<char>
    decreases n,
{
    if n < 10 {
        seq![digit_char(n)]
    } else {
        nat_digits(n / 10) + seq![digit_char(n % 10)]
    }
}

/// The decimal numeral of an integer, with a leading `-` when it is negative.
pub open spec fn int_decimal(n: int) -> Seq<char> {
    if n < 0 {
        seq!['-'] + nat_digits((-n) as nat)
    } else {
        nat_digits(n as nat)
    }
}

/// Whether a character is a decimal digit.
pub open spec fn is_digit(c: char) -> bool {
    '0' <= c && c <= '9'
}

/// The value of a decimal digit character.
pub open spec fn digit_value(c: char) -> int {
    (c as int) - ('0' as int)
}

/// The number that a run of decimal digits reads as.
pub open spec fn digits_value(s: Seq<char>) -> int
    decreases s.len(),
{
    if s.len() == 0 {
        0
    } else {
        digits_value(s.drop_last()) * 10 + digit_value(s.last())
    }
}

pub proof fn lemma_digit_char(d: nat)
    requires
        d < 10,
    ensures
        is_digit(digit_char(d)),
        digit_value(digit_char(d)) == d,
{
}

/// The numeral of a natural number is made of decimal digits, starts with a
/// zero only when it is "0", and reads back as the number.
pub proof fn lemma_nat_digits_value(n: nat)
    ensures
        nat_digits(n).len() >= 1,
        forall|i: int| 0 <= i < nat_digits(n).len() ==> is_digit(#[trigger] nat_digits(n)[i]),
        digits_value(nat_digits(n)) == n,
        nat_digits(n)[0] == '0' ==> n == 0,
    decreases n,
{
    if n < 10 {
        lemma_digit_char(n);
        let s = seq![digit_char(n)];
        assert(s.drop_last() =~= Seq::<char>::empty());
        assert(digits_value(s) == digits_value(s.drop_last()) * 10 + digit_value(s.last()));
    } else {
        lemma_nat_digits_value(n / 10);
        lemma_digit_char(n % 10);
        let a = nat_digits(n / 10);
        let s = a + seq![digit_char(n % 10)];
        assert(s.drop_last() =~= a);
        assert(s.last() == digit_char(n % 10));
        assert(nat_digits(n) == s);
        assert(digits_value(s) == digits_value(a) * 10 + digit_value(s.last()));
        assert(s[0] == a[0]);
        assert forall|i: int| 0 <= i < s.len() implies is_digit(#[trigger] s[i]) by {
            if i < a.len() {
                assert(s[i] == a[i]);
            }
        }
        if a[0] == '0' {
            assert(n / 10 == 0);
        }
    }
}

/// The numeral of an integer is that of its size, after a minus sign when
/// it is negative.
pub proof fn lemma_int_decimal_value(n: int)
    ensures
        n < 0 ==> int_decimal(n)[0] == '-' && int_decimal(n).drop_first() == nat_digits(
            (-n) as nat,
        ),
        n >= 0 ==> int_decimal(n) == nat_digits(n as nat),
        digits_value(nat_digits(if n < 0 { -n } else { n } as nat)) == if n < 0 {
            -n
        } else {
            n
        },
{
    if n < 0 {
        lemma_nat_digits_value((-n) as nat);
        assert((seq!['-'] + nat_digits((-n) as nat)).drop_first() =~= nat_digits((-n) as nat));
    } else {
        lemma_nat_digits_value(n as nat);
    }
}

pub fn digit_str(d: u64) -> (s: &'static str)
    requires
        d < 10,
    ensures
        s@ == seq![digit_char(d as nat)],
{
    proof {
        reveal_strlit("0");
        reveal_strlit("1");
        reveal_strlit("2");
        reveal_strlit("3");
        reveal_strlit("4");
        reveal_strlit("5");
        reveal_strlit("6");
        reveal_strlit("7");
        reveal_strlit("8");
        reveal_strlit("9");
    }
    match d {
        0 => "0",
        1 => "1",
        2 => "2",
        3 => "3",
        4 => "4",
        5 => "5",
        6 => "6",
        7 => "7",
        8 => "8",
        _ => "9",
    }
}

/// Appends the decimal numeral of `n`.
pub fn push_u64(out: &mut String, n: u64)
    ensures
        final(out)@ == old(out)@ + nat_digits(n as nat),
    decreases n,
{
    if n >= 10 {
        push_u64(out, n / 10);
        out.append(digit_str(n % 10));
    } else {
        out.append(digit_str(n));
    }
}

/// Appends the decimal numeral of `n`, signed.
pub fn push_i64(out: &mut String, n: i64)
    ensures
        final(out)@ == old(out)@ + int_decimal(n as int),
{
    if n < 0 {
        proof { reveal_strlit("-"); }
        out.append("-");
        let magnitude: u64 = if n == i64::MIN {
            9223372036854775808u64
        } else {
            (-n) as u64
        };
        push_u64(out, magnitude);
    } else {
        push_u64(out, n as u64);
    }
}


/// What HTML escaping makes of one character: `&`, `<`, `>` and `"` become
/// entities, every other character stands for itself.
pub open spec fn escape_char(c: char) -> Seq<char> {
    if c == '&' {
        seq!['&', 'a', 'm', 'p', ';']
    } else if c == '<' {
        seq!['&', 'l', 't', ';']
    } else if c == '>' {
        seq!['&', 'g', 't', ';']
    } else if c == '"' {
        seq!['&', 'q', 'u', 'o', 't', ';']
    } else {
        seq![c]
    }
}

/// The HTML-escaped form of a text: each character escaped in turn.
pub open spec fn html_escape(s: Seq<char>) -> Seq<char>
    decreases s.len(),
{
    if s.len() == 0 {
        seq![]
    } else {
        html_escape(s.drop_last()) + escape_char(s.last())
    }
}

/// Escaped text cannot open or close a tag or end a quoted attribute value:
/// it holds no `<`, `>` or `"`, whatever the text was.
pub proof fn lemma_escaped_text_has_no_markup(s: Seq<char>)
    ensures
        forall|i: int|
            0 <= i < html_escape(s).len() ==> {
                let c = #[trigger] html_escape(s)[i];
                c != '<' && c != '>' && c != '"'
            },
    decreases s.len(),
{
    if s.len() > 0 {
        lemma_escaped_text_has_no_markup(s.drop_last());
        let prefix = html_escape(s.drop_last());
        let tail = escape_char(s.last());
        assert forall|i: int| 0 <= i < html_escape(s).len() implies {
            let c = #[trigger] html_escape(s)[i];
            c != '<' && c != '>' && c != '"'
        } by {
            if i < prefix.len() {
                assert(html_escape(s)[i] == prefix[i]);
            } else {
                assert(html_escape(s)[i] == tail[i - prefix.len()]);
            }
        }
    }
}

/// Escaping works character by character: the escaped form of two texts
/// one after the other is their escaped forms one after the other.
pub proof fn lemma_escape_concat(a: Seq<char>, b: Seq<char>)
    ensures
        html_escape(a + b) == html_escape(a) + html_escape(b),
    decreases b.len(),
{
    if b.len() == 0 {
        assert(a + b =~= a);
    } else {
        lemma_escape_concat(a, b.drop_last());
        assert((a + b).drop_last() =~= a + b.drop_last());
        assert((a + b).last() == b.last());
    }
}

/// Appends `text` escaped for HTML, through maud's `Render` impl for `str`
/// (which calls maud's `escape_to_string`). The contract claims what maud
/// documents for its escaper: `&`, `<`, `>` and `"` become `&amp;`, `&lt;`,
/// `&gt;` and `&quot;`; all other characters are passed through unchanged.
#[verifier::external_body]
pub fn push_escaped(out: &mut String, text: &str)
    ensures
        final(out)@ == old(out)@ + html_escape(text@),
{
    maud::Render::render_to(text, out);
}

/// Whether `pat` occurs in `s` as a contiguous run of characters.
pub open spec fn has_infix(s: Seq<char>, pat: Seq<char>) -> bool {
    exists|i: int| 0 <= i && i + pat.len() <= s.len() && #[trigger] s.subrange(i, i + pat.len()) == pat
}

/// A text found in a middle part is found in the whole.
pub proof fn lemma_infix_within(a: Seq<char>, m: Seq<char>, b: Seq<char>, pat: Seq<char>)
    requires
        has_infix(m, pat),
    ensures
        has_infix(a + m + b, pat),
{
    let i = choose|i: int| 0 <= i && i + pat.len() <= m.len() && #[trigger] m.subrange(i, i + pat.len()) == pat;
    let j = a.len() + i;
    assert((a + m + b).subrange(j, j + pat.len()) =~= m.subrange(i, i + pat.len()));
}

/// Texts put one after the other group either way.
pub proof fn lemma_add_assoc(a: Seq<char>, b: Seq<char>, c: Seq<char>)
    ensures
        a + (b + c) == a + b + c,
{
    assert(a + (b + c) =~= a + b + c);
}

/// A text is found in itself.
pub proof fn lemma_infix_refl(x: Seq<char>)
    ensures
        has_infix(x, x),
{
    assert(x.subrange(0, 0 + x.len() as int) =~= x);
}

/// A text found in `x` is found in `a + x`.
pub proof fn lemma_infix_left(a: Seq<char>, x: Seq<char>, pat: Seq<char>)
    requires
        has_infix(x, pat),
    ensures
        has_infix(a + x, pat),
{
    lemma_infix_within(a, x, seq![], pat);
    assert(a + x + Seq::<char>::empty() =~= a + x);
}

/// A text found in `x` is found in `x + b`.
pub proof fn lemma_infix_right(x: Seq<char>, b: Seq<char>, pat: Seq<char>)
    requires
        has_infix(x, pat),
    ensures
        has_infix(x + b, pat),
{
    lemma_infix_within(seq![], x, b, pat);
    assert(Seq::<char>::empty() + x + b =~= x + b);
}

/// A prefix of a text is a prefix of that text followed by more.
pub proof fn lemma_prefix_right(p: Seq<char>, x: Seq<char>, y: Seq<char>)
    requires
        p.is_prefix_of(x),
    ensures
        p.is_prefix_of(x + y),
{
    assert((x + y).subrange(0, p.len() as int) =~= x.subrange(0, p.len() as int));
}

/// Escaping leaves a text without `&`, `<`, `>` and `"` as it is.
pub proof fn lemma_escape_plain(s: Seq<char>)
    requires
        forall|i: int| 0 <= i < s.len() ==> {
            let c = #[trigger] s[i];
            c != '&' && c != '<' && c != '>' && c != '"'
        },
    ensures
        html_escape(s) == s,
    decreases s.len(),
{
    if s.len() > 0 {
        let p = s.drop_last();
        assert forall|i: int| 0 <= i < p.len() implies {
            let c = #[trigger] p[i];
            c != '&' && c != '<' && c != '>' && c != '"'
        } by {
            assert(p[i] == s[i]);
        }
        lemma_escape_plain(p);
        assert(s[s.len() - 1] == s.last());
        assert(p.push(s.last()) =~= s);
    }
}

/// The characters of a text.
pub fn text_chars(s: &str) -> (v: Vec<char>)
    ensures
        v@ == s@,
{
    let n = s.unicode_len();
    let mut v: Vec<char> = Vec::new();
    for i in 0..n
        invariant
            n == s@.len(),
            v@ == s@.take(i as int),
    {
        v.push(s.get_char(i));
        assert(v@ =~= s@.take(i + 1));
    }
    assert(v@ =~= s@);
    v
}

fn matches_at(s: &Vec<char>, pat: &Vec<char>, i: usize) -> (b: bool)
    requires
        i + pat@.len() <= s@.len(),
    ensures
        b == (s@.subrange(i as int, i + pat@.len()) == pat@),
{
    let m = pat.len();
    let len = s.len();
    for j in 0..m
        invariant
            m == pat@.len(),
            len == s@.len(),
            i + m <= s@.len(),
            forall|k: int| 0 <= k < j ==> s@[i + k] == pat@[k],
    {
        if s[i + j] != pat[j] {
            assert(s@.subrange(i as int, i + pat@.len())[j as int] != pat@[j as int]);
            return false;
        }
    }
    assert(s@.subrange(i as int, i + pat@.len()) =~= pat@);
    true
}

/// Whether `pat` occurs in `text`.
pub fn text_contains(text: &str, pat: &str) -> (b: bool)
    ensures
        b == has_infix(text@, pat@),
{
    let s = text_chars(text);
    let p = text_chars(pat);
    if p.len() > s.len() {
        return false;
    }
    if p.len() == 0 {
        assert(s@.subrange(0, 0 + p@.len() as int) =~= p@);
        return true;
    }
    let slen = s.len();
    let last = slen - p.len();
    let mut i: usize = 0;
    while i <= last
        invariant
            s@ == text@,
            p@ == pat@,
            p@.len() > 0,
            slen == s@.len(),
            last + p@.len() == s@.len(),
            forall|k: int| 0 <= k < i ==> #[trigger] s@.subrange(k, k + p@.len()) != p@,
        decreases last + 1 - i,
    {
        if matches_at(&s, &p, i) {
            return true;
        }
        i = i + 1;
    }
    assert forall|k: int| 0 <= k && k + p@.len() <= s@.len() implies #[trigger] s@.subrange(k, k + p@.len()) != p@ by {}
    false
}

/// Whether two texts are equal.
pub fn text_eq(a: &str, b: &str) -> (r: bool)
    ensures
        r == (a@ == b@),
{
    let x = text_chars(a);
    let y = text_chars(b);
    if x.len() != y.len() {
        return false;
    }
    let n = x.len();
    for i in 0..n
        invariant
            n == x@.len(),
            x@.len() == y@.len(),
            x@ == a@,
            y@ == b@,
            forall|k: int| 0 <= k < i ==> x@[k] == y@[k],
    {
        if x[i] != y[i] {
            return false;
        }
    }
    assert(x@ =~= y@);
    true
}

/// A rendered block of HTML: text that is already escaped where it needs to be.
pub struct Markup {
    html: String,
}

impl View for Markup {
    type V = Seq<char>;

    closed spec fn view(&self) -> Seq<char> {
        self.html@
    }
}

impl Markup {
    /// Markup holding nothing.
    pub fn empty() -> (m: Markup)
        ensures
            m@ == Seq::<char>::empty(),
    {
        Markup { html: String::new() }
    }

    /// Takes `html` as markup as it stands, without escaping it.
    pub fn pre_escaped(html: String) -> (m: Markup)
        ensures
            m@ == html@,
    {
        Markup { html }
    }

    /// The HTML text of the markup.
    pub fn into_string(self) -> (s: String)
        ensures
            s@ == self@,
    {
        self.html
    }

    /// The HTML text of the markup, borrowed.
    pub fn as_str(&self) -> (s: &str)
        ensures
            s@ == self@,
    {
        self.html.as_str()
    }
}

} // verus!
