//! Reading a declaration from text.
//!
//! A declaration is written as the name of the set, an opening brace, the
//! member identifiers separated by commas, optionally one more comma, and a
//! closing brace:
//!
//! ```text
//! declaration := NAME "{" [ IDENT ("," IDENT)* [","] ] "}"
//! ```
//!
//! An identifier is an ASCII letter or underscore followed by ASCII letters,
//! digits and underscores, and extends as far as it can. Spaces, tabs and line
//! ends may stand between lexemes and mean nothing.

use crate::declaration::{Declaration, EventSetDeclaration};
use vstd::prelude::*;

verus! {

/// A lexeme as a mathematical value.
pub enum Lexeme {
    Ident(Seq<char>),
    Open,
    Close,
    Comma,
}

/// A lexeme of a declaration: an identifier, a brace or a comma.
#[derive(Debug, PartialEq, Eq)]
pub enum Token {
    Ident(String),
    Open,
    Close,
    Comma,
}

impl View for Token {
    type V = Lexeme;

    open spec fn view(&self) -> Lexeme {
        match self {
            Token::Ident(word) => Lexeme::Ident(word@),
            Token::Open => Lexeme::Open,
            Token::Close => Lexeme::Close,
            Token::Comma => Lexeme::Comma,
        }
    }
}

/// The lexemes that a list of tokens stands for, in the same order.
pub open spec fn lexemes(tokens: Seq<Token>) -> Seq<Lexeme> {
    Seq::new(tokens.len(), |i: int| tokens[i]@)
}

/// A character that separates lexemes and is otherwise skipped.
pub open spec fn is_space(c: char) -> bool {
    c == ' ' || c == '\t' || c == '\n' || c == '\r'
}

/// A character that an identifier can begin with.
pub open spec fn is_ident_start(c: char) -> bool {
    ('a' <= c && c <= 'z') || ('A' <= c && c <= 'Z') || c == '_'
}

/// A character that an identifier can go on with.
pub open spec fn is_ident_continue(c: char) -> bool {
    is_ident_start(c) || ('0' <= c && c <= '9')
}

/// `lexeme` in front of the lexemes `rest`, where there are any.
pub open spec fn prepend(lexeme: Lexeme, rest: Option<Seq<Lexeme>>) -> Option<Seq<Lexeme>> {
    match rest {
        Some(rest) => Some(seq![lexeme] + rest),
        None => None,
    }
}

/// The lexemes of `text` from position `i` on, or `None` where a character
/// stands that belongs to no lexeme.
pub open spec fn lex_from(text: Seq<char>, i: int) -> Option<Seq<Lexeme>>
    decreases text.len() - i, 0int,
{
    if i < 0 || i >= text.len() {
        Some(Seq::empty())
    } else if is_space(text[i]) {
        lex_from(text, i + 1)
    } else if text[i] == '{' {
        prepend(Lexeme::Open, lex_from(text, i + 1))
    } else if text[i] == '}' {
        prepend(Lexeme::Close, lex_from(text, i + 1))
    } else if text[i] == ',' {
        prepend(Lexeme::Comma, lex_from(text, i + 1))
    } else if is_ident_start(text[i]) {
        lex_ident(text, i, i + 1)
    } else {
        None
    }
}

/// The lexemes of `text` from the identifier on that begins at `start` and
/// reaches at least up to `i`.
pub open spec fn lex_ident(text: Seq<char>, start: int, i: int) -> Option<Seq<Lexeme>>
    decreases text.len() - i, 1int,
{
    if 0 <= i < text.len() && is_ident_continue(text[i]) {
        lex_ident(text, start, i + 1)
    } else {
        prepend(Lexeme::Ident(text.subrange(start, i)), lex_from(text, i))
    }
}

/// The lexemes of a whole text.
pub open spec fn lex(text: Seq<char>) -> Option<Seq<Lexeme>> {
    lex_from(text, 0)
}

/// Whether `c` separates lexemes.
fn separates(c: char) -> (r: bool)
    ensures
        r == is_space(c),
{
    c == ' ' || c == '\t' || c == '\n' || c == '\r'
}

/// Whether an identifier can begin with `c`.
fn begins_identifier(c: char) -> (r: bool)
    ensures
        r == is_ident_start(c),
{
    ('a' <= c && c <= 'z') || ('A' <= c && c <= 'Z') || c == '_'
}

/// Whether an identifier can go on with `c`.
fn continues_identifier(c: char) -> (r: bool)
    ensures
        r == is_ident_continue(c),
{
    begins_identifier(c) || ('0' <= c && c <= '9')
}

/// The character at position `i` of an ASCII text.
fn char_at(text: &str, i: usize) -> (c: char)
    requires
        text.is_ascii(),
        i < text@.len(),
    ensures
        c == text@[i as int],
{
    text.get_ascii(i) as char
}

/// The lexemes `front` followed by the lexemes `rest`, where there are any.
spec fn followed_by(front: Seq<Lexeme>, rest: Option<Seq<Lexeme>>) -> Option<Seq<Lexeme>> {
    match rest {
        Some(rest) => Some(front + rest),
        None => None,
    }
}

/// A lexeme moves from the head of what is still to be read to the end of
/// what has been read.
proof fn push_lexeme(front: Seq<Lexeme>, lexeme: Lexeme, rest: Option<Seq<Lexeme>>)
    ensures
        followed_by(front, prepend(lexeme, rest)) == followed_by(front.push(lexeme), rest),
{
    if let Some(tail) = rest {
        assert(front + (seq![lexeme] + tail) =~= front.push(lexeme) + tail);
    }
}

/// A text with a character outside ASCII at or after position `i` has no
/// lexemes from `i` on, and none from an identifier on that has reached `i`.
proof fn beyond_ascii_is_no_lexeme(text: Seq<char>, start: int, i: int, k: int)
    requires
        0 <= i <= k < text.len(),
        !('\0' <= text[k] <= '\u{7f}'),
    ensures
        lex_from(text, i) is None,
        lex_ident(text, start, i) is None,
    decreases text.len() - i,
{
    if i < k {
        beyond_ascii_is_no_lexeme(text, start, i + 1, k);
        beyond_ascii_is_no_lexeme(text, i, i + 1, k);
    }
}

/// The end of the identifier that begins at `start`.
fn scan_identifier(text: &str, start: usize) -> (end: usize)
    requires
        text.is_ascii(),
        start < text@.len(),
        is_ident_start(text@[start as int]),
    ensures
        start < end <= text@.len(),
        lex_from(text@, start as int) == prepend(
            Lexeme::Ident(text@.subrange(start as int, end as int)),
            lex_from(text@, end as int),
        ),
{
    broadcast use vstd::string::is_ascii_spec_bytes;

    let n = text.as_bytes().len();
    let mut i: usize = start + 1;
    while i < n && continues_identifier(char_at(text, i))
        invariant
            text.is_ascii(),
            n == text@.len(),
            start < i <= n,
            lex_from(text@, start as int) == lex_ident(text@, start as int, i as int),
        decreases n - i,
    {
        i += 1;
    }
    i
}

/// Splits a text into its lexemes. `None` says that the text holds a
/// character that belongs to no lexeme.
pub fn tokenize(text: &str) -> (r: Option<Vec<Token>>)
    ensures
        match r {
            Some(tokens) => lex(text@) == Some(lexemes(tokens@)),
            None => lex(text@) is None,
        },
{
    broadcast use vstd::string::is_ascii_spec_bytes;

    if !text.is_ascii() {
        proof {
            let k = choose|k: int|
                0 <= k < text@.len() && !('\0' <= #[trigger] text@[k] <= '\u{7f}');
            beyond_ascii_is_no_lexeme(text@, 0, 0, k);
        }
        return None;
    }
    let n = text.as_bytes().len();
    let mut tokens: Vec<Token> = Vec::new();
    let mut i: usize = 0;
    while i < n
        invariant
            text.is_ascii(),
            n == text@.len(),
            i <= n,
            lex(text@) == followed_by(lexemes(tokens@), lex_from(text@, i as int)),
        decreases n - i,
    {
        let c = char_at(text, i);
        let ghost front = lexemes(tokens@);
        if separates(c) {
            i += 1;
        } else if c == '{' {
            proof {
                push_lexeme(front, Lexeme::Open, lex_from(text@, i + 1));
            }
            tokens.push(Token::Open);
            i += 1;
        } else if c == '}' {
            proof {
                push_lexeme(front, Lexeme::Close, lex_from(text@, i + 1));
            }
            tokens.push(Token::Close);
            i += 1;
        } else if c == ',' {
            proof {
                push_lexeme(front, Lexeme::Comma, lex_from(text@, i + 1));
            }
            tokens.push(Token::Comma);
            i += 1;
        } else if begins_identifier(c) {
            let end = scan_identifier(text, i);
            let word = text.substring_ascii(i, end).to_owned();
            proof {
                push_lexeme(front, Lexeme::Ident(word@), lex_from(text@, end as int));
            }
            tokens.push(Token::Ident(word));
            i = end;
        } else {
            return None;
        }
        assert(lexemes(tokens@) =~= front || lexemes(tokens@) =~= front.push(
            tokens@[tokens@.len() - 1]@,
        ));
    }
    assert(lexemes(tokens@) + Seq::<Lexeme>::empty() =~= lexemes(tokens@));
    Some(tokens)
}

/// The lexemes of a member list: the identifiers in order, with one comma
/// between each two neighbours.
pub open spec fn member_list(members: Seq<Seq<char>>) -> Seq<Lexeme> {
    Seq::new(
        if members.len() == 0 {
            0
        } else {
            (2 * members.len() - 1) as nat
        },
        |k: int|
            if k % 2 == 0 {
                Lexeme::Ident(members[k / 2])
            } else {
                Lexeme::Comma
            },
    )
}

/// The lexemes of a declaration: the name, an opening brace, the member list,
/// one more comma if `trailing_comma` says so, and a closing brace.
pub open spec fn declaration_lexemes(declaration: Declaration, trailing_comma: bool) -> Seq<
    Lexeme,
> {
    seq![Lexeme::Ident(declaration.name), Lexeme::Open] + member_list(declaration.members) + (
    if trailing_comma {
        seq![Lexeme::Comma]
    } else {
        Seq::empty()
    }) + seq![Lexeme::Close]
}

/// `lexemes` is a way of writing `declaration`: without a comma after the last
/// member or, where there is a member, with one.
pub open spec fn spells(lexemes: Seq<Lexeme>, declaration: Declaration) -> bool {
    ||| lexemes == declaration_lexemes(declaration, false)
    ||| declaration.members.len() > 0 && lexemes == declaration_lexemes(declaration, true)
}

/// `text` is a way of writing `declaration`.
pub open spec fn denotes(text: Seq<char>, declaration: Declaration) -> bool {
    match lex(text) {
        Some(lexemes) => spells(lexemes, declaration),
        None => false,
    }
}

/// Each position of `lexemes` holds the kind of lexeme that a declaration has
/// there.
spec fn shaped(lexemes: Seq<Lexeme>) -> bool {
    &&& lexemes.len() >= 3
    &&& lexemes[0] is Ident
    &&& lexemes[1] is Open
    &&& lexemes[lexemes.len() - 1] is Close
    &&& forall|k: int|
        2 <= k < lexemes.len() - 1 ==> if k % 2 == 0 {
            #[trigger] lexemes[k] is Ident
        } else {
            lexemes[k] is Comma
        }
}

/// The declaration that is read off lexemes of that shape.
spec fn reading(lexemes: Seq<Lexeme>) -> Declaration {
    Declaration {
        name: lexemes[0]->Ident_0,
        members: Seq::new(
            ((lexemes.len() - 2) / 2) as nat,
            |j: int| lexemes[2 + 2 * j]->Ident_0,
        ),
    }
}

/// Lexemes spell a declaration exactly if they have the shape of one and the
/// declaration is what is read off them.
proof fn spelling_is_reading(lexemes: Seq<Lexeme>, declaration: Declaration)
    ensures
        spells(lexemes, declaration) <==> shaped(lexemes) && reading(lexemes) == declaration,
{
    let n = declaration.members.len() as int;
    let list = member_list(declaration.members);
    if spells(lexemes, declaration) {
        let trailing = lexemes != declaration_lexemes(declaration, false);
        assert(lexemes == declaration_lexemes(declaration, trailing));
        assert(lexemes.len() == 3 + list.len() + if trailing { 1int } else { 0int });
        assert forall|k: int| 2 <= k < lexemes.len() - 1 implies if k % 2 == 0 {
            #[trigger] lexemes[k] is Ident
        } else {
            lexemes[k] is Comma
        } by {
            if k - 2 < list.len() {
                assert(lexemes[k] == list[k - 2]);
            }
        }
        assert(reading(lexemes).members.len() == n);
        assert forall|j: int| 0 <= j < n implies reading(lexemes).members[j]
            == declaration.members[j] by {
            assert(lexemes[2 + 2 * j] == list[2 * j]);
        }
        assert(reading(lexemes).members =~= declaration.members);
    }
    if shaped(lexemes) && reading(lexemes) == declaration {
        let inner = lexemes.len() - 3;
        let trailing = inner > 0 && inner % 2 == 0;
        let written = declaration_lexemes(declaration, trailing);
        assert(written.len() == lexemes.len());
        assert forall|k: int| 0 <= k < lexemes.len() implies lexemes[k] == written[k] by {
            if 2 <= k < lexemes.len() - 1 {
                if k % 2 == 0 {
                    assert(lexemes[k] is Ident);
                    assert(written[k] == list[k - 2]);
                    assert(declaration.members[(k - 2) / 2] == lexemes[2 + 2 * ((k - 2) / 2)]->Ident_0);
                } else {
                    assert(lexemes[k] is Comma);
                    if k - 2 < list.len() {
                        assert(written[k] == list[k - 2]);
                    }
                }
            }
        }
        assert(lexemes =~= written);
    }
}

/// Reads a declaration off its lexemes. `None` says that the lexemes spell no
/// declaration.
pub fn parse_tokens(tokens: &Vec<Token>) -> (r: Option<EventSetDeclaration>)
    ensures
        match r {
            Some(declaration) => spells(lexemes(tokens@), declaration@),
            None => forall|declaration: Declaration| !spells(lexemes(tokens@), declaration),
        },
{
    let ghost given = lexemes(tokens@);
    proof {
        assert forall|declaration: Declaration|
            spells(given, declaration) implies shaped(given) by {
            spelling_is_reading(given, declaration);
        }
    }
    let n = tokens.len();
    if n < 3 {
        return None;
    }
    let name = match &tokens[0] {
        Token::Ident(word) => word.clone(),
        _ => {
            return None;
        },
    };
    match &tokens[1] {
        Token::Open => {},
        _ => {
            return None;
        },
    }
    match &tokens[n - 1] {
        Token::Close => {},
        _ => {
            return None;
        },
    }
    let mut members: Vec<String> = Vec::new();
    let mut k: usize = 2;
    while k < n - 1
        invariant
            n == tokens@.len(),
            given == lexemes(tokens@),
            2 <= k <= n - 1,
            forall|declaration: Declaration| spells(given, declaration) ==> shaped(given),
            forall|h: int|
                2 <= h < k ==> if h % 2 == 0 {
                    #[trigger] given[h] is Ident
                } else {
                    given[h] is Comma
                },
            members@.len() == (k - 1) / 2,
            forall|j: int| 0 <= j < members@.len() ==> members@[j]@ == given[2 + 2 * j]->Ident_0,
        decreases n - k,
    {
        if k % 2 == 0 {
            match &tokens[k] {
                Token::Ident(word) => {
                    members.push(word.clone());
                },
                _ => {
                    assert(!(given[k as int] is Ident));
                    return None;
                },
            }
        } else {
            match &tokens[k] {
                Token::Comma => {},
                _ => {
                    assert(!(given[k as int] is Comma));
                    return None;
                },
            }
        }
        k += 1;
    }
    let declaration = EventSetDeclaration { name, members };
    proof {
        assert(shaped(given));
        assert(reading(given).members =~= declaration@.members);
        spelling_is_reading(given, declaration@);
    }
    Some(declaration)
}

/// Reads a declaration from text. `None` says that the text is no way of
/// writing any declaration.
pub fn parse_declaration(text: &str) -> (r: Option<EventSetDeclaration>)
    ensures
        match r {
            Some(declaration) => denotes(text@, declaration@),
            None => forall|declaration: Declaration| !denotes(text@, declaration),
        },
{
    match tokenize(text) {
        Some(tokens) => parse_tokens(&tokens),
        None => None,
    }
}

/// A text is a way of writing one declaration at most.
pub proof fn text_denotes_one_declaration(text: Seq<char>, one: Declaration, other: Declaration)
    requires
        denotes(text, one),
        denotes(text, other),
    ensures
        one == other,
{
    let lexemes = lex(text)->Some_0;
    spelling_is_reading(lexemes, one);
    spelling_is_reading(lexemes, other);
}

} // verus!
