//! Token trees: the lexical form in which declarations and values arrive,
//! and in which the generated accessors leave.

use vstd::prelude::*;

verus! {

/// A region of the source text, from its first position to its last.
#[derive(Clone, Copy, Debug, PartialEq, Eq, Structural)]
pub struct Span {
    pub start: usize,
    pub end: usize,
}

impl Span {
    /// The location of tokens that stand for no source text.
    pub fn call_site() -> (r: Span)
        ensures
            r == Span::site(),
    {
        Span { start: 0, end: 0 }
    }

    /// The location of tokens that stand for no source text.
    pub open spec fn site() -> Span {
        Span { start: 0, end: 0 }
    }

    /// The region that starts where `self` starts and ends where `last` ends.
    pub fn to(self, last: Span) -> (r: Span)
        ensures
            r == self.spec_to(last),
    {
        Span { start: self.start, end: last.end }
    }

    /// The region that starts where `self` starts and ends where `last` ends.
    pub open spec fn spec_to(self, last: Span) -> Span {
        Span { start: self.start, end: last.end }
    }
}

/// The brackets around a group of tokens.
#[derive(Clone, Copy, Debug, PartialEq, Eq, Structural)]
pub enum Delimiter {
    Parenthesis,
    Brace,
    Bracket,
    /// A group without brackets in the source text.
    Invisible,
}

/// One token tree.
#[derive(Debug, PartialEq, Eq)]
pub enum Token {
    /// A word: an identifier or a keyword.
    Ident { text: String, span: Span },
    /// One punctuation character; `joint` when the next token follows it
    /// without a space and is punctuation too.
    Punct { ch: char, joint: bool, span: Span },
    /// A literal, in its source form.
    Literal { text: String, span: Span },
    /// A delimited sequence of token trees.
    Group { delimiter: Delimiter, span: Span, stream: Vec<Token> },
}

/// The mathematical value of a [`Token`].
pub enum Tok {
    Ident { text: Seq<char>, span: Span },
    Punct { ch: char, joint: bool, span: Span },
    Literal { text: Seq<char>, span: Span },
    Group { delimiter: Delimiter, span: Span, stream: Seq<Tok> },
}

impl Tok {
    /// Where the token stands.
    pub open spec fn span(self) -> Span {
        match self {
            Tok::Ident { span, .. } => span,
            Tok::Punct { span, .. } => span,
            Tok::Literal { span, .. } => span,
            Tok::Group { span, .. } => span,
        }
    }

    /// Whether the token is the punctuation character `c`.
    pub open spec fn is_punct(self, c: char) -> bool {
        self matches Tok::Punct { ch, .. } && ch == c
    }

    /// Whether the token is the word `word`.
    pub open spec fn is_word(self, word: Seq<char>) -> bool {
        self matches Tok::Ident { text, .. } && text == word
    }
}

impl View for Token {
    type V = Tok;

    open spec fn view(&self) -> Tok
        decreases self,
    {
        match self {
            Token::Ident { text, span } => Tok::Ident { text: text@, span: *span },
            Token::Punct { ch, joint, span } => Tok::Punct { ch: *ch, joint: *joint, span: *span },
            Token::Literal { text, span } => Tok::Literal { text: text@, span: *span },
            Token::Group { delimiter, span, stream } => Tok::Group {
                delimiter: *delimiter,
                span: *span,
                stream: views(stream@),
            },
        }
    }
}

/// The values of a sequence of tokens, one for one.
pub open spec fn views(ts: Seq<Token>) -> Seq<Tok>
    decreases ts,
{
    Seq::new(
        ts.len(),
        |i: int|
            if 0 <= i < ts.len() {
                ts[i]@
            } else {
                arbitrary()
            },
    )
}

/// The values of a sequence of tokens with one more token.
pub proof fn lemma_views_push(ts: Seq<Token>, t: Token)
    ensures
        views(ts.push(t)) == views(ts).push(t@),
{
    assert(views(ts.push(t)) =~= views(ts).push(t@));
}

impl Token {
    /// An identifier token.
    pub fn ident(text: &str, span: Span) -> (r: Token)
        ensures
            r@ == (Tok::Ident { text: text@, span }),
    {
        Token::Ident { text: String::from_str(text), span }
    }

    /// A punctuation token that a space follows.
    pub fn punct(ch: char, span: Span) -> (r: Token)
        ensures
            r@ == (Tok::Punct { ch, joint: false, span }),
    {
        Token::Punct { ch, joint: false, span }
    }

    /// A punctuation token that the next punctuation follows at once.
    pub fn joint(ch: char, span: Span) -> (r: Token)
        ensures
            r@ == (Tok::Punct { ch, joint: true, span }),
    {
        Token::Punct { ch, joint: true, span }
    }

    /// A literal token.
    pub fn literal(text: &str, span: Span) -> (r: Token)
        ensures
            r@ == (Tok::Literal { text: text@, span }),
    {
        Token::Literal { text: String::from_str(text), span }
    }

    /// A group of tokens.
    pub fn group(delimiter: Delimiter, span: Span, stream: Vec<Token>) -> (r: Token)
        ensures
            r@ == (Tok::Group { delimiter, span, stream: views(stream@) }),
    {
        Token::Group { delimiter, span, stream }
    }

    /// Where the token stands.
    pub fn span(&self) -> (r: Span)
        ensures
            r == self@.span(),
    {
        match self {
            Token::Ident { span, .. } => *span,
            Token::Punct { span, .. } => *span,
            Token::Literal { span, .. } => *span,
            Token::Group { span, .. } => *span,
        }
    }

    /// Whether the token is the punctuation character `c`.
    pub fn is_punct(&self, c: char) -> (r: bool)
        ensures
            r == self@.is_punct(c),
    {
        match self {
            Token::Punct { ch, .. } => *ch == c,
            _ => false,
        }
    }

    /// A copy of the token, groups included.
    pub fn duplicate(&self) -> (r: Token)
        ensures
            r@ == self@,
        decreases self,
    {
        match self {
            Token::Ident { text, span } => Token::Ident { text: text.clone(), span: *span },
            Token::Punct { ch, joint, span } => Token::Punct { ch: *ch, joint: *joint, span: *span },
            Token::Literal { text, span } => Token::Literal { text: text.clone(), span: *span },
            Token::Group { delimiter, span, stream } => Token::Group {
                delimiter: *delimiter,
                span: *span,
                stream: duplicate_all(stream),
            },
        }
    }
}

/// A copy of a sequence of tokens.
pub fn duplicate_all(ts: &Vec<Token>) -> (out: Vec<Token>)
    ensures
        views(out@) == views(ts@),
    decreases ts,
{
    let mut out: Vec<Token> = Vec::new();
    let mut i: usize = 0;
    while i < ts.len()
        invariant
            i <= ts.len(),
            out@.len() == i,
            forall|j: int| 0 <= j < i ==> out@[j]@ == ts@[j]@,
        decreases ts.len() - i,
    {
        let t = ts[i].duplicate();
        out.push(t);
        i += 1;
    }
    assert(views(out@) =~= views(ts@));
    out
}

/// The tokens of `ts` from index `from` up to, not including, index `to`.
pub fn slice(ts: &Vec<Token>, from: usize, to: usize) -> (out: Vec<Token>)
    requires
        from <= to <= ts.len(),
    ensures
        views(out@) == views(ts@).subrange(from as int, to as int),
{
    let mut out: Vec<Token> = Vec::new();
    let mut i: usize = from;
    while i < to
        invariant
            from <= i <= to <= ts.len(),
            out@.len() == i - from,
            forall|j: int| 0 <= j < i - from ==> out@[j]@ == ts@[from + j]@,
        decreases to - i,
    {
        let t = ts[i].duplicate();
        out.push(t);
        i += 1;
    }
    assert(views(out@) =~= views(ts@).subrange(from as int, to as int));
    out
}

/// The opening bracket of a delimiter, followed by a space; nothing for an
/// invisible one.
pub open spec fn opening(d: Delimiter) -> Seq<char> {
    match d {
        Delimiter::Parenthesis => seq!['(', ' '],
        Delimiter::Brace => seq!['{', ' '],
        Delimiter::Bracket => seq!['[', ' '],
        Delimiter::Invisible => Seq::empty(),
    }
}

/// The closing bracket of a delimiter, followed by a space; nothing for an
/// invisible one.
pub open spec fn closing(d: Delimiter) -> Seq<char> {
    match d {
        Delimiter::Parenthesis => seq![')', ' '],
        Delimiter::Brace => seq!['}', ' '],
        Delimiter::Bracket => seq![']', ' '],
        Delimiter::Invisible => Seq::empty(),
    }
}

/// The source text of one token: its characters and a space, the space left
/// out behind joint punctuation; a group is its brackets around the text of
/// its tokens.
pub open spec fn render_one(t: Tok) -> Seq<char>
    decreases t,
{
    match t {
        Tok::Ident { text, .. } => text.push(' '),
        Tok::Punct { ch, joint, .. } => if joint {
            seq![ch]
        } else {
            seq![ch, ' ']
        },
        Tok::Literal { text, .. } => text.push(' '),
        Tok::Group { delimiter, stream, .. } => opening(delimiter) + render(stream) + closing(
            delimiter,
        ),
    }
}

/// The source text of a sequence of tokens: the texts of its tokens in order.
pub open spec fn render(ts: Seq<Tok>) -> Seq<char>
    decreases ts,
{
    if ts.len() == 0 {
        Seq::empty()
    } else {
        render(ts.drop_last()) + render_one(ts.last())
    }
}

/// The text of a sequence of tokens with one more token.
pub proof fn lemma_render_push(ts: Seq<Tok>, t: Tok)
    ensures
        render(ts.push(t)) == render(ts) + render_one(t),
{
    assert(ts.push(t).drop_last() =~= ts);
}

fn push_opening(d: Delimiter, out: &mut String)
    ensures
        final(out)@ == old(out)@ + opening(d),
{
    match d {
        Delimiter::Parenthesis => {
            out.push('(');
            out.push(' ');
            assert(out@ =~= old(out)@ + opening(d));
        },
        Delimiter::Brace => {
            out.push('{');
            out.push(' ');
            assert(out@ =~= old(out)@ + opening(d));
        },
        Delimiter::Bracket => {
            out.push('[');
            out.push(' ');
            assert(out@ =~= old(out)@ + opening(d));
        },
        Delimiter::Invisible => {
            assert(out@ =~= old(out)@ + opening(d));
        },
    }
}

fn push_closing(d: Delimiter, out: &mut String)
    ensures
        final(out)@ == old(out)@ + closing(d),
{
    match d {
        Delimiter::Parenthesis => {
            out.push(')');
            out.push(' ');
            assert(out@ =~= old(out)@ + closing(d));
        },
        Delimiter::Brace => {
            out.push('}');
            out.push(' ');
            assert(out@ =~= old(out)@ + closing(d));
        },
        Delimiter::Bracket => {
            out.push(']');
            out.push(' ');
            assert(out@ =~= old(out)@ + closing(d));
        },
        Delimiter::Invisible => {
            assert(out@ =~= old(out)@ + closing(d));
        },
    }
}

fn write_token(t: &Token, out: &mut String)
    ensures
        final(out)@ == old(out)@ + render_one(t@),
    decreases t,
{
    match t {
        Token::Ident { text, .. } => {
            out.append(text.as_str());
            out.push(' ');
            assert(out@ =~= old(out)@ + render_one(t@));
        },
        Token::Punct { ch, joint, .. } => {
            out.push(*ch);
            if !*joint {
                out.push(' ');
            }
            assert(out@ =~= old(out)@ + render_one(t@));
        },
        Token::Literal { text, .. } => {
            out.append(text.as_str());
            out.push(' ');
            assert(out@ =~= old(out)@ + render_one(t@));
        },
        Token::Group { delimiter, stream, .. } => {
            push_opening(*delimiter, out);
            write_tokens(stream, out);
            push_closing(*delimiter, out);
            assert(out@ =~= old(out)@ + render_one(t@));
        },
    }
}

fn write_tokens(ts: &Vec<Token>, out: &mut String)
    ensures
        final(out)@ == old(out)@ + render(views(ts@)),
    decreases ts,
{
    let mut i: usize = 0;
    assert(views(ts@).take(0) =~= Seq::<Tok>::empty());
    assert(out@ =~= old(out)@ + render(views(ts@).take(0)));
    while i < ts.len()
        invariant
            i <= ts.len(),
            out@ == old(out)@ + render(views(ts@).take(i as int)),
        decreases ts.len() - i,
    {
        write_token(&ts[i], out);
        proof {
            let v = views(ts@);
            assert(v.take(i + 1) =~= v.take(i as int).push(ts@[i as int]@));
            lemma_render_push(v.take(i as int), ts@[i as int]@);
            assert(out@ =~= old(out)@ + render(v.take(i + 1)));
        }
        i += 1;
    }
    assert(views(ts@).take(ts@.len() as int) =~= views(ts@));
}

/// The source text of a sequence of tokens.
pub fn to_text(ts: &Vec<Token>) -> (out: String)
    ensures
        out@ == render(views(ts@)),
{
    let mut out = String::new();
    write_tokens(ts, &mut out);
    assert(out@ =~= render(views(ts@)));
    out
}

} // verus!
