//! The gated-expression grammar and its parser.
//!
//! Input is a flat sequence of [`Token`]s:
//!
//! ```text
//! ConflictingInput := GatedExpr*
//! GatedExpr        := Str FatArrow Body Comma?
//! ```
//!
//! A trailing comma is mandatory on every segment except the last one; a
//! non-final segment without its comma is a syntax error anchored at the
//! segment's gate token. An empty token sequence is legal and parses to an
//! empty list.

use vstd::prelude::*;

verus! {

/// One token of the input surface. The host front end turns its own lexical
/// forms into these; the body of a segment is kept opaque and is referred to
/// by a handle that the host resolves back to the real expression.
#[derive(Debug)]
pub enum Token {
    /// A string literal carrying a gate label.
    Str(String),
    /// The `=>` connective between a gate and its body.
    FatArrow,
    /// The `,` separator after a segment.
    Comma,
    /// One whole expression, as a handle into the host's expression table.
    Body(usize),
}

/// Mathematical image of a [`Token`].
pub enum TokenV {
    Str(Seq<char>),
    FatArrow,
    Comma,
    Body(usize),
}

impl View for Token {
    type V = TokenV;

    open spec fn view(&self) -> TokenV {
        match self {
            Token::Str(s) => TokenV::Str(s@),
            Token::FatArrow => TokenV::FatArrow,
            Token::Comma => TokenV::Comma,
            Token::Body(b) => TokenV::Body(*b),
        }
    }
}

impl Token {
    /// Whether this token is the `=>` connective.
    pub fn is_fat_arrow(&self) -> (b: bool)
        ensures
            b == (self@ is FatArrow),
    {
        match self {
            Token::FatArrow => true,
            _ => false,
        }
    }

    /// Whether this token is the `,` separator.
    pub fn is_comma(&self) -> (b: bool)
        ensures
            b == (self@ is Comma),
    {
        match self {
            Token::Comma => true,
            _ => false,
        }
    }
}

/// The token sequence, element by element, as mathematical values.
pub open spec fn toks(s: Seq<Token>) -> Seq<TokenV> {
    s.map_values(|t: Token| t@)
}

/// One gated unit: a gate label and the handle of its opaque body.
#[derive(Debug)]
pub struct GatedExpr {
    pub gate: String,
    pub body: usize,
}

/// Mathematical image of a [`GatedExpr`].
pub struct GatedExprV {
    pub gate: Seq<char>,
    pub body: usize,
}

impl View for GatedExpr {
    type V = GatedExprV;

    open spec fn view(&self) -> GatedExprV {
        GatedExprV { gate: self.gate@, body: self.body }
    }
}

/// The item sequence, element by element, as mathematical values.
pub open spec fn items_v(s: Seq<GatedExpr>) -> Seq<GatedExprV> {
    s.map_values(|g: GatedExpr| g@)
}

/// The full parsed unit: the gated expressions in source order. Gate labels
/// need not be unique; duplicates are legal input.
#[derive(Debug)]
pub struct ConflictingInput {
    pub items: Vec<GatedExpr>,
}

impl View for ConflictingInput {
    type V = Seq<GatedExprV>;

    open spec fn view(&self) -> Seq<GatedExprV> {
        items_v(self.items@)
    }
}

/// What a syntax error was about.
#[derive(Clone, Copy, Debug, PartialEq, Eq, Structural)]
pub enum ErrorKind {
    /// A segment does not begin with a string literal.
    ExpectedGate,
    /// The `=>` connective after a gate is missing.
    ExpectedFatArrow,
    /// The body after the `=>` connective is missing.
    ExpectedBody,
    /// A non-final segment lacks its trailing comma; anchored at its gate token.
    ExpectedComma,
}

/// A syntax error: its kind and the index of the token it is anchored at.
#[derive(Clone, Copy, Debug, PartialEq, Eq, Structural)]
pub struct ParseError {
    pub pos: usize,
    pub kind: ErrorKind,
}

/// Mathematical image of a [`ParseError`].
pub struct ParseErrorV {
    pub pos: int,
    pub kind: ErrorKind,
}

impl View for ParseError {
    type V = ParseErrorV;

    open spec fn view(&self) -> ParseErrorV {
        ParseErrorV { pos: self.pos as int, kind: self.kind }
    }
}

/// The grammar: what the token sequence `s`, read from index `i` on, parses
/// to. Each segment is a gate, the connective, a body, and a comma that may
/// be omitted only when the segment ends the sequence. The first structural
/// fault aborts the whole parse with a single error.
pub open spec fn parse_spec(s: Seq<TokenV>, i: int) -> Result<Seq<GatedExprV>, ParseErrorV>
    decreases s.len() - i when 0 <= i <= s.len()
{
    if i >= s.len() {
        Ok(Seq::empty())
    } else {
        match s[i] {
            TokenV::Str(gate) => {
                if i + 1 >= s.len() || !(s[i + 1] is FatArrow) {
                    Err(ParseErrorV { pos: i + 1, kind: ErrorKind::ExpectedFatArrow })
                } else if i + 2 >= s.len() || !(s[i + 2] is Body) {
                    Err(ParseErrorV { pos: i + 2, kind: ErrorKind::ExpectedBody })
                } else {
                    let item = GatedExprV { gate, body: s[i + 2]->Body_0 };
                    if i + 3 == s.len() {
                        // Final segment: the trailing comma is optional.
                        Ok(seq![item])
                    } else if s[i + 3] is Comma {
                        match parse_spec(s, i + 4) {
                            Ok(rest) => Ok(seq![item] + rest),
                            Err(e) => Err(e),
                        }
                    } else {
                        Err(ParseErrorV { pos: i, kind: ErrorKind::ExpectedComma })
                    }
                }
            },
            _ => Err(ParseErrorV { pos: i, kind: ErrorKind::ExpectedGate }),
        }
    }
}

/// Parses all segments of `tokens` from index `start` on.
fn parse_items(tokens: &Vec<Token>, start: usize) -> (r: Result<Vec<GatedExpr>, ParseError>)
    requires
        start <= tokens@.len(),
    ensures
        match r {
            Ok(v) => parse_spec(toks(tokens@), start as int)
                == Ok::<Seq<GatedExprV>, ParseErrorV>(items_v(v@)),
            Err(e) => parse_spec(toks(tokens@), start as int)
                == Err::<Seq<GatedExprV>, ParseErrorV>(e@),
        },
    decreases tokens@.len() - start,
{
    let n = tokens.len();
    if start == n {
        let v: Vec<GatedExpr> = Vec::new();
        assert(items_v(v@) =~= Seq::<GatedExprV>::empty());
        return Ok(v);
    }
    assert(toks(tokens@)[start as int] == tokens@[start as int]@);
    let gate: String = match &tokens[start] {
        Token::Str(g) => g.clone(),
        _ => {
            return Err(ParseError { pos: start, kind: ErrorKind::ExpectedGate });
        },
    };
    if start + 1 == n || !tokens[start + 1].is_fat_arrow() {
        return Err(ParseError { pos: start + 1, kind: ErrorKind::ExpectedFatArrow });
    }
    assert(toks(tokens@)[start as int + 1] == tokens@[start as int + 1]@);
    if start + 2 == n {
        return Err(ParseError { pos: start + 2, kind: ErrorKind::ExpectedBody });
    }
    assert(toks(tokens@)[start as int + 2] == tokens@[start as int + 2]@);
    let body: usize = match &tokens[start + 2] {
        Token::Body(b) => *b,
        _ => {
            return Err(ParseError { pos: start + 2, kind: ErrorKind::ExpectedBody });
        },
    };
    let item = GatedExpr { gate, body };
    if start + 3 == n {
        let mut v: Vec<GatedExpr> = Vec::new();
        v.push(item);
        assert(items_v(v@) =~= seq![item@]);
        return Ok(v);
    }
    assert(toks(tokens@)[start as int + 3] == tokens@[start as int + 3]@);
    if !tokens[start + 3].is_comma() {
        return Err(ParseError { pos: start, kind: ErrorKind::ExpectedComma });
    }
    match parse_items(tokens, start + 4) {
        Ok(rest) => {
            let ghost rest0 = rest@;
            let mut v = rest;
            v.insert(0, item);
            proof {
                assert(v@ =~= seq![item] + rest0);
                assert forall|k: int| 0 <= k < v@.len() implies items_v(v@)[k] == (seq![item@]
                    + items_v(rest0))[k] by {
                    if k > 0 {
                        assert(v@[k] == rest0[k - 1]);
                    }
                }
                assert(items_v(v@) =~= seq![item@] + items_v(rest0));
            }
            Ok(v)
        },
        Err(e) => Err(e),
    }
}

/// The range `[j, i)` of `s` is a whole number of comma-terminated segments.
pub open spec fn closed_segments(s: Seq<TokenV>, j: int, i: int) -> bool
    decreases i - j when j <= i
{
    j == i || (j + 4 <= i && s[j] is Str && s[j + 1] is FatArrow && s[j + 2] is Body
        && s[j + 3] is Comma && closed_segments(s, j + 4, i))
}

/// Law: parsing is compositional over comma-terminated segments — behind a
/// run of them, the rest of the sequence decides alone whether the parse
/// succeeds, and any error there is the whole parse's error.
pub proof fn lemma_parse_past_segments(s: Seq<TokenV>, j: int, i: int)
    requires
        0 <= j <= i,
        i <= s.len(),
        closed_segments(s, j, i),
    ensures
        parse_spec(s, i) is Err ==> parse_spec(s, j) == parse_spec(s, i),
        parse_spec(s, i) is Ok ==> parse_spec(s, j) is Ok,
    decreases i - j,
{
    if j != i {
        lemma_parse_past_segments(s, j + 4, i);
    }
}

/// Law: missing-separator detection — a non-final segment that lacks its
/// trailing comma makes the whole parse fail, whatever follows, with a
/// syntax error anchored at that segment's gate token.
pub proof fn lemma_missing_separator(s: Seq<TokenV>, i: int)
    requires
        0 <= i,
        i + 3 < s.len(),
        closed_segments(s, 0, i),
        s[i] is Str,
        s[i + 1] is FatArrow,
        s[i + 2] is Body,
        !(s[i + 3] is Comma),
    ensures
        parse_spec(s, 0) == Err::<Seq<GatedExprV>, ParseErrorV>(
            ParseErrorV { pos: i, kind: ErrorKind::ExpectedComma },
        ),
{
    assert(parse_spec(s, i) == Err::<Seq<GatedExprV>, ParseErrorV>(
        ParseErrorV { pos: i, kind: ErrorKind::ExpectedComma },
    ));
    lemma_parse_past_segments(s, 0, i);
}

/// Law: the same omission on the final segment is legal — a segment that
/// ends the sequence parses without its trailing comma.
pub proof fn lemma_trailing_comma_optional(s: Seq<TokenV>, i: int)
    requires
        0 <= i,
        i + 3 == s.len(),
        closed_segments(s, 0, i),
        s[i] is Str,
        s[i + 1] is FatArrow,
        s[i + 2] is Body,
    ensures
        parse_spec(s, 0) is Ok,
{
    assert(parse_spec(s, i) is Ok);
    lemma_parse_past_segments(s, 0, i);
}

impl ConflictingInput {
    /// Parses the whole token sequence into the ordered list of gated
    /// expressions. The result is exactly what the grammar [`parse_spec`]
    /// assigns to the sequence: the item list on a well-formed input, and
    /// the single error of the first structural fault otherwise.
    pub fn parse(tokens: &Vec<Token>) -> (r: Result<ConflictingInput, ParseError>)
        ensures
            match r {
                Ok(ci) => parse_spec(toks(tokens@), 0)
                    == Ok::<Seq<GatedExprV>, ParseErrorV>(ci@),
                Err(e) => parse_spec(toks(tokens@), 0)
                    == Err::<Seq<GatedExprV>, ParseErrorV>(e@),
            },
    {
        match parse_items(tokens, 0) {
            Ok(items) => Ok(ConflictingInput { items }),
            Err(e) => Err(e),
        }
    }
}

} // verus!
