//! Rendering of configuration values as source text, and the grammar that
//! reads such text back.
use vstd::prelude::*;
use vstd::string::StringExecFns;

use crate::text::{decimal, i64_to_decimal, signed_decimal, usize_to_decimal};

verus! {

/// Whether a character ends a rendered value.
pub open spec fn is_delimiter(c: char) -> bool {
    c == ',' || c == ']' || c == ')'
}

/// Whether `rest` may follow a rendered value.
pub open spec fn may_follow(rest: Seq<char>) -> bool {
    rest.len() == 0 || is_delimiter(rest[0])
}

/// Whether a character is a decimal digit.
pub open spec fn is_digit(c: char) -> bool {
    '0' <= c && c <= '9'
}

/// The value of a decimal digit.
pub open spec fn digit_value(c: char) -> nat {
    (c as nat - '0' as nat) as nat
}

/// The number of leading decimal digits.
pub open spec fn leading_digits(s: Seq<char>) -> nat
    decreases s.len(),
{
    if s.len() == 0 || !is_digit(s[0]) {
        0
    } else {
        1 + leading_digits(s.drop_first())
    }
}

/// The value of a string of decimal digits.
pub open spec fn digits_value(s: Seq<char>) -> nat
    decreases s.len(),
{
    if s.len() == 0 {
        0
    } else {
        digits_value(s.drop_last()) * 10 + digit_value(s.last())
    }
}

/// Reads a natural number at the start of `s`: its value and the number of
/// characters read.
pub open spec fn parse_nat(s: Seq<char>) -> Option<(nat, nat)> {
    let k = leading_digits(s);
    if k == 0 {
        None
    } else {
        Some((digits_value(s.subrange(0, k as int)), k))
    }
}

/// Reads a possibly negative integer at the start of `s`.
pub open spec fn parse_int(s: Seq<char>) -> Option<(int, nat)> {
    if s.len() > 0 && s[0] == '-' {
        match parse_nat(s.drop_first()) {
            Some((v, k)) => Some((-v, k + 1)),
            None => None,
        }
    } else {
        match parse_nat(s) {
            Some((v, k)) => Some((v as int, k)),
            None => None,
        }
    }
}

/// A value that renders as source text from which it can be read back.
pub trait ToTokens: Sized {
    /// What the text stands for.
    type Model;

    /// The value that the text stands for.
    spec fn model(&self) -> Self::Model;

    /// The rendered text.
    spec fn tokens(&self) -> Seq<char>;

    /// Reads a value at the start of `s`: what it stands for and the number
    /// of characters read.
    spec fn parse_prefix(s: Seq<char>) -> Option<(Self::Model, nat)>;

    /// Reading the rendered text back, whatever delimiter follows, gives the
    /// value and consumes the whole text.
    proof fn lemma_round_trip(&self, rest: Seq<char>)
        requires
            may_follow(rest),
        ensures
            self.tokens().len() > 0,
            !is_delimiter(self.tokens()[0]),
            Self::parse_prefix(self.tokens() + rest) == Some((self.model(), self.tokens().len())),
    ;

    /// Renders the value as source text.
    fn to_tokens(&self) -> (r: String)
        ensures
            r@ == self.tokens(),
    ;
}


/// A decimal numeral is a non-empty string of digits whose value is the
/// number.
proof fn lemma_decimal(n: nat)
    ensures
        decimal(n).len() > 0,
        forall|i: int| 0 <= i < decimal(n).len() ==> is_digit(#[trigger] decimal(n)[i]),
        digits_value(decimal(n)) == n,
    decreases n,
{
    lemma_digit_char(n % 10);
    if n >= 10 {
        lemma_decimal(n / 10);
        let d = decimal(n / 10);
        assert(decimal(n) == d.push(crate::text::digit_char(n % 10)));
        assert(decimal(n).drop_last() =~= d);
        assert forall|i: int| 0 <= i < decimal(n).len() implies is_digit(#[trigger] decimal(n)[i]) by {
            if i < d.len() {
                assert(decimal(n)[i] == d[i]);
            }
        }
        assert(digits_value(decimal(n)) == digits_value(d) * 10 + n % 10);
        assert((n / 10) * 10 + n % 10 == n) by (nonlinear_arith);
    } else {
        assert(n % 10 == n);
        lemma_digit_char(n);
        assert(decimal(n).drop_last() =~= Seq::<char>::empty());
        assert(digits_value(Seq::<char>::empty()) == 0);
    }
}

proof fn lemma_digit_char(d: nat)
    requires
        d < 10,
    ensures
        is_digit(crate::text::digit_char(d)),
        digit_value(crate::text::digit_char(d)) == d,
{
}

/// The leading digits of a digit string followed by a non-digit are the
/// whole digit string.
proof fn lemma_leading_digits(s: Seq<char>, rest: Seq<char>)
    requires
        forall|i: int| 0 <= i < s.len() ==> is_digit(#[trigger] s[i]),
        rest.len() == 0 || !is_digit(rest[0]),
    ensures
        leading_digits(s + rest) == s.len(),
    decreases s.len(),
{
    if s.len() > 0 {
        assert((s + rest).drop_first() =~= s.drop_first() + rest);
        assert(is_digit(s[0]));
        lemma_leading_digits(s.drop_first(), rest);
    } else {
        assert(s + rest =~= rest);
    }
}

/// Reading a decimal numeral back gives the number.
proof fn lemma_parse_nat(n: nat, rest: Seq<char>)
    requires
        may_follow(rest),
    ensures
        parse_nat(decimal(n) + rest) == Some((n, decimal(n).len())),
{
    lemma_decimal(n);
    lemma_leading_digits(decimal(n), rest);
    assert((decimal(n) + rest).subrange(0, decimal(n).len() as int) =~= decimal(n));
}

impl ToTokens for usize {
    type Model = usize;

    open spec fn model(&self) -> usize {
        *self
    }

    open spec fn tokens(&self) -> Seq<char> {
        decimal(*self as nat)
    }

    open spec fn parse_prefix(s: Seq<char>) -> Option<(usize, nat)> {
        match parse_nat(s) {
            Some((v, k)) => if v <= usize::MAX {
                Some((v as usize, k))
            } else {
                None
            },
            None => None,
        }
    }

    proof fn lemma_round_trip(&self, rest: Seq<char>) {
        lemma_decimal(*self as nat);
        lemma_parse_nat(*self as nat, rest);
        assert(is_digit(self.tokens()[0]));
    }

    fn to_tokens(&self) -> (r: String) {
        usize_to_decimal(*self)
    }
}

impl ToTokens for i64 {
    type Model = i64;

    open spec fn model(&self) -> i64 {
        *self
    }

    open spec fn tokens(&self) -> Seq<char> {
        signed_decimal(*self as int)
    }

    open spec fn parse_prefix(s: Seq<char>) -> Option<(i64, nat)> {
        match parse_int(s) {
            Some((v, k)) => if i64::MIN <= v <= i64::MAX {
                Some((v as i64, k))
            } else {
                None
            },
            None => None,
        }
    }

    proof fn lemma_round_trip(&self, rest: Seq<char>) {
        let n = *self as int;
        if n < 0 {
            let m = (-n) as nat;
            lemma_decimal(m);
            lemma_parse_nat(m, rest);
            let t = seq!['-'] + decimal(m) + rest;
            assert(self.tokens() + rest =~= t);
            assert(t.drop_first() =~= decimal(m) + rest);
            assert(self.tokens()[0] == '-');
        } else {
            lemma_decimal(n as nat);
            lemma_parse_nat(n as nat, rest);
            assert(is_digit(decimal(n as nat)[0]));
            assert(is_digit(self.tokens()[0]));
            assert((decimal(n as nat) + rest)[0] == decimal(n as nat)[0]);
        }
    }

    fn to_tokens(&self) -> (r: String) {
        i64_to_decimal(*self)
    }
}


/// The rendered elements of a list, each followed by a comma.
pub open spec fn list_items<T: ToTokens>(s: Seq<T>) -> Seq<char>
    decreases s.len(),
{
    if s.len() == 0 {
        Seq::empty()
    } else {
        list_items(s.drop_last()) + s.last().tokens() + seq![',']
    }
}

/// Reads comma-terminated elements up to and including the closing bracket.
pub open spec fn parse_items<T: ToTokens>(s: Seq<char>) -> Option<(Seq<T::Model>, nat)>
    decreases s.len(),
{
    if s.len() == 0 {
        None
    } else if s[0] == ']' {
        Some((Seq::empty(), 1))
    } else {
        match T::parse_prefix(s) {
            Some((v, k)) => if k < s.len() && s[k as int] == ',' {
                match parse_items::<T>(s.subrange(k as int + 1, s.len() as int)) {
                    Some((vs, m)) => Some((seq![v] + vs, k + 1 + m)),
                    None => None,
                }
            } else {
                None
            },
            None => None,
        }
    }
}

/// The models of the elements of a list.
pub open spec fn list_model<T: ToTokens>(s: Seq<T>) -> Seq<T::Model> {
    s.map_values(|x: T| x.model())
}

/// The rendered list: its elements between brackets.
pub open spec fn list_tokens<T: ToTokens>(s: Seq<T>) -> Seq<char> {
    seq!['['] + list_items(s) + seq![']']
}

/// Reads a bracketed list.
pub open spec fn parse_list<T: ToTokens>(s: Seq<char>) -> Option<(Seq<T::Model>, nat)> {
    if s.len() > 0 && s[0] == '[' {
        match parse_items::<T>(s.drop_first()) {
            Some((vs, m)) => Some((vs, m + 1)),
            None => None,
        }
    } else {
        None
    }
}

/// The rendered elements seen from the front.
proof fn lemma_list_items_front<T: ToTokens>(s: Seq<T>)
    requires
        s.len() > 0,
    ensures
        list_items(s) == s[0].tokens() + seq![','] + list_items(s.drop_first()),
    decreases s.len(),
{
    if s.len() > 1 {
        lemma_list_items_front(s.drop_last());
        assert(s.drop_last().drop_first() =~= s.drop_first().drop_last());
        assert(s.drop_first().last() == s.last());
        assert(s.drop_last()[0] == s[0]);
        assert(list_items(s.drop_first()) == list_items(s.drop_first().drop_last()) + s.last().tokens() + seq![',']);
        assert(list_items(s) =~= s[0].tokens() + seq![','] + list_items(s.drop_first()));
    } else {
        assert(s.drop_last() =~= Seq::<T>::empty());
        assert(s.drop_first() =~= Seq::<T>::empty());
        assert(list_items(s) =~= s[0].tokens() + seq![','] + list_items(s.drop_first()));
    }
}

/// Reading rendered elements back gives their models.
proof fn lemma_parse_items<T: ToTokens>(xs: Seq<T>, rest: Seq<char>)
    ensures
        parse_items::<T>(list_items(xs) + seq![']'] + rest) == Some(
            (list_model(xs), list_items(xs).len() + 1),
        ),
    decreases xs.len(),
{
    let input = list_items(xs) + seq![']'] + rest;
    if xs.len() == 0 {
        assert(list_items(xs) =~= Seq::<char>::empty());
        assert(input[0] == ']');
        assert(list_model(xs) =~= Seq::<T::Model>::empty());
    } else {
        let x = xs[0];
        let tail = xs.drop_first();
        lemma_list_items_front(xs);
        let after = seq![','] + list_items(tail) + seq![']'] + rest;
        assert(input =~= x.tokens() + after);
        x.lemma_round_trip(after);
        let k = x.tokens().len();
        assert(input[k as int] == ',');
        assert(input.subrange(k as int + 1, input.len() as int) =~= list_items(tail) + seq![']'] + rest);
        lemma_parse_items(tail, rest);
        assert(input[0] != ']') by {
            assert(input[0] == x.tokens()[0]);
            x.lemma_round_trip(after);
        }
        assert(seq![x.model()] + list_model(tail) =~= list_model(xs));
        assert(parse_items::<T>(input) == Some((list_model(xs), list_items(xs).len() + 1)));
    }
}

/// Reading a rendered list back gives its models.
proof fn lemma_parse_list<T: ToTokens>(xs: Seq<T>, rest: Seq<char>)
    ensures
        parse_list::<T>(list_tokens(xs) + rest) == Some((list_model(xs), list_tokens(xs).len())),
{
    let input = list_tokens(xs) + rest;
    lemma_parse_items(xs, rest);
    assert(input.drop_first() =~= list_items(xs) + seq![']'] + rest);
}

fn render_list<T: ToTokens>(items: &[T]) -> (r: String)
    ensures
        r@ == list_tokens(items@),
{
    proof {
        reveal_strlit("[");
        reveal_strlit(",");
        reveal_strlit("]");
    }
    let mut r = String::from_str("[");
    let mut i: usize = 0;
    while i < items.len()
        invariant
            i <= items@.len(),
            r@ == seq!['['] + list_items(items@.subrange(0, i as int)),
        decreases items@.len() - i,
    {
        let t = items[i].to_tokens();
        r.append(t.as_str());
        r.append(",");
        proof {
            reveal_strlit(",");
            let s = items@.subrange(0, i + 1);
            assert(s.drop_last() =~= items@.subrange(0, i as int));
            assert(s.last() == items@[i as int]);
            assert(r@ =~= seq!['['] + list_items(s));
        }
        i = i + 1;
    }
    proof {
        reveal_strlit("]");
    }
    r.append("]");
    assert(items@.subrange(0, items@.len() as int) =~= items@);
    r
}

impl<T: ToTokens> ToTokens for Vec<T> {
    type Model = Seq<T::Model>;

    open spec fn model(&self) -> Seq<T::Model> {
        list_model(self@)
    }

    open spec fn tokens(&self) -> Seq<char> {
        list_tokens(self@)
    }

    open spec fn parse_prefix(s: Seq<char>) -> Option<(Seq<T::Model>, nat)> {
        parse_list::<T>(s)
    }

    proof fn lemma_round_trip(&self, rest: Seq<char>) {
        lemma_parse_list(self@, rest);
        assert(self.tokens()[0] == '[');
    }

    fn to_tokens(&self) -> (r: String) {
        render_list(self.as_slice())
    }
}

impl<T: ToTokens, const N: usize> ToTokens for [T; N] {
    type Model = Seq<T::Model>;

    open spec fn model(&self) -> Seq<T::Model> {
        list_model(self@)
    }

    open spec fn tokens(&self) -> Seq<char> {
        list_tokens(self@)
    }

    open spec fn parse_prefix(s: Seq<char>) -> Option<(Seq<T::Model>, nat)> {
        parse_list::<T>(s)
    }

    proof fn lemma_round_trip(&self, rest: Seq<char>) {
        lemma_parse_list(self@, rest);
        assert(self.tokens()[0] == '[');
    }

    fn to_tokens(&self) -> (r: String) {
        render_list(self.as_slice())
    }
}


/// Padding of a two-dimensional window.
#[derive(Clone, Copy, Debug, PartialEq, Eq, Structural)]
pub enum PaddingConfig2d {
    Same,
    Valid,
    Explicit(usize, usize),
}

/// Whether `s` starts with `p`.
pub open spec fn starts_with(s: Seq<char>, p: Seq<char>) -> bool {
    p.len() <= s.len() && s.subrange(0, p.len() as int) == p
}

/// Reads the two sizes and the closing parenthesis of an explicit padding.
pub open spec fn parse_explicit(t: Seq<char>) -> Option<(PaddingConfig2d, nat)> {
    match usize::parse_prefix(t) {
        Some((a, k)) => if k < t.len() && t[k as int] == ',' {
            let u = t.subrange(k as int + 1, t.len() as int);
            match usize::parse_prefix(u) {
                Some((b, m)) => if m < u.len() && u[m as int] == ')' {
                    Some((PaddingConfig2d::Explicit(a, b), k + 1 + m + 1))
                } else {
                    None
                },
                None => None,
            }
        } else {
            None
        },
        None => None,
    }
}

impl ToTokens for PaddingConfig2d {
    type Model = PaddingConfig2d;

    open spec fn model(&self) -> PaddingConfig2d {
        *self
    }

    open spec fn tokens(&self) -> Seq<char> {
        match *self {
            PaddingConfig2d::Same => "PaddingConfig2d::Same"@,
            PaddingConfig2d::Valid => "PaddingConfig2d::Valid"@,
            PaddingConfig2d::Explicit(a, b) => "PaddingConfig2d::Explicit("@ + decimal(a as nat)
                + seq![','] + decimal(b as nat) + seq![')'],
        }
    }

    open spec fn parse_prefix(s: Seq<char>) -> Option<(PaddingConfig2d, nat)> {
        if starts_with(s, "PaddingConfig2d::Same"@) {
            Some((PaddingConfig2d::Same, "PaddingConfig2d::Same"@.len()))
        } else if starts_with(s, "PaddingConfig2d::Valid"@) {
            Some((PaddingConfig2d::Valid, "PaddingConfig2d::Valid"@.len()))
        } else if starts_with(s, "PaddingConfig2d::Explicit("@) {
            let p = "PaddingConfig2d::Explicit("@;
            match parse_explicit(s.subrange(p.len() as int, s.len() as int)) {
                Some((v, k)) => Some((v, p.len() + k)),
                None => None,
            }
        } else {
            None
        }
    }

    proof fn lemma_round_trip(&self, rest: Seq<char>) {
        reveal_strlit("PaddingConfig2d::Same");
        reveal_strlit("PaddingConfig2d::Valid");
        reveal_strlit("PaddingConfig2d::Explicit(");
        let same = "PaddingConfig2d::Same"@;
        let valid = "PaddingConfig2d::Valid"@;
        let expl = "PaddingConfig2d::Explicit("@;
        let input = self.tokens() + rest;
        match *self {
            PaddingConfig2d::Same => {
                assert(input.subrange(0, same.len() as int) =~= same);
            },
            PaddingConfig2d::Valid => {
                assert(input.subrange(0, valid.len() as int) =~= valid);
                assert(input[17] == 'V');
                assert(input.subrange(0, same.len() as int)[17] != same[17]);
            },
            PaddingConfig2d::Explicit(a, b) => {
                assert(input.subrange(0, expl.len() as int) =~= expl);
                assert(input[17] == 'E');
                assert(input.subrange(0, same.len() as int)[17] != same[17]);
                assert(input.subrange(0, valid.len() as int)[17] != valid[17]);
                let da = decimal(a as nat);
                let db = decimal(b as nat);
                let t = input.subrange(expl.len() as int, input.len() as int);
                let after_a = seq![','] + db + seq![')'] + rest;
                assert(t =~= da + after_a);
                lemma_parse_nat(a as nat, after_a);
                let k = da.len();
                assert(t[k as int] == ',');
                let u = t.subrange(k as int + 1, t.len() as int);
                let after_b = seq![')'] + rest;
                assert(u =~= db + after_b);
                lemma_parse_nat(b as nat, after_b);
                assert(u[db.len() as int] == ')');
            },
        }
    }

    fn to_tokens(&self) -> (r: String) {
        match self {
            PaddingConfig2d::Same => String::from_str("PaddingConfig2d::Same"),
            PaddingConfig2d::Valid => String::from_str("PaddingConfig2d::Valid"),
            PaddingConfig2d::Explicit(a, b) => {
                let mut r = String::from_str("PaddingConfig2d::Explicit(");
                let ta = a.to_tokens();
                r.append(ta.as_str());
                r.append(",");
                let tb = b.to_tokens();
                r.append(tb.as_str());
                r.append(")");
                proof {
                    reveal_strlit(",");
                    reveal_strlit(")");
                }
                r
            },
        }
    }
}

/// Reading rendered source text back, on its own or followed by a
/// delimiter, reconstructs the value: numbers, lists and arrays nested to
/// any depth, and padding configurations.
pub proof fn lemma_source_round_trip<T: ToTokens>(v: T, rest: Seq<char>)
    requires
        may_follow(rest),
    ensures
        T::parse_prefix(v.tokens()) == Some((v.model(), v.tokens().len())),
        T::parse_prefix(v.tokens() + rest) == Some((v.model(), v.tokens().len())),
{
    v.lemma_round_trip(rest);
    v.lemma_round_trip(Seq::empty());
    assert(v.tokens() + Seq::<char>::empty() =~= v.tokens());
}


#[verifier::external_type_specification]
#[verifier::external_body]
pub struct ExTokenStream(proc_macro2::TokenStream);

#[verifier::external_type_specification]
#[verifier::external_body]
pub struct ExLexError(proc_macro2::LexError);

/// Why rendered text could not become tokens.
#[derive(Clone, Copy, Debug, PartialEq, Eq, Structural)]
pub enum TokensError {
    /// The lexer refused the text.
    Lex,
}

/// Whether `proc_macro2` lexes the text into tokens.
pub uninterp spec fn lexes_of(src: Seq<char>) -> bool;

/// Relies on `<proc_macro2::TokenStream as FromStr>::from_str`: lexes source
/// text into a token stream, or reports that the text does not lex; which of
/// the two depends on the text alone.
#[verifier::external_body]
fn lex(src: &str) -> (r: Result<proc_macro2::TokenStream, proc_macro2::LexError>)
    ensures
        r is Ok <==> lexes_of(src@),
{
    src.parse()
}

/// Renders a value and lexes the text into a token stream.
pub fn to_token_stream<T: ToTokens>(value: &T) -> (r: Result<proc_macro2::TokenStream, TokensError>)
    ensures
        r is Ok <==> lexes_of(value.tokens()),
        r matches Err(e) ==> e == TokensError::Lex,
{
    let text = value.to_tokens();
    match lex(text.as_str()) {
        Ok(tokens) => Ok(tokens),
        Err(_) => Err(TokensError::Lex),
    }
}

} // verus!
