//! Literal tokens for common punctuation and keywords.
use vstd::prelude::*;

use crate::combinators::keyword::Kw;
use crate::token::Token;

verus! {

/// The `true` boolean literal token.
#[derive(Debug, Clone, Copy, PartialEq, Eq, Hash, PartialOrd, Ord, Default)]
pub struct True;

impl Token for True {
    open spec fn spec_value() -> Seq<char> {
        "true"@
    }

    open spec fn spec_token() -> Self {
        True
    }

    fn value() -> (r: &'static str) {
        "true"
    }

    fn token() -> (r: Self) {
        True
    }
}

/// The `false` boolean literal token.
#[derive(Debug, Clone, Copy, PartialEq, Eq, Hash, PartialOrd, Ord, Default)]
pub struct False;

impl Token for False {
    open spec fn spec_value() -> Seq<char> {
        "false"@
    }

    open spec fn spec_token() -> Self {
        False
    }

    fn value() -> (r: &'static str) {
        "false"
    }

    fn token() -> (r: Self) {
        False
    }
}

/// The `null` literal token.
#[derive(Debug, Clone, Copy, PartialEq, Eq, Hash, PartialOrd, Ord, Default)]
pub struct Null;

impl Token for Null {
    open spec fn spec_value() -> Seq<char> {
        "null"@
    }

    open spec fn spec_token() -> Self {
        Null
    }

    fn value() -> (r: &'static str) {
        "null"
    }

    fn token() -> (r: Self) {
        Null
    }
}

/// The `(` left parenthesis token.
#[derive(Debug, Clone, Copy, PartialEq, Eq, Hash, PartialOrd, Ord, Default)]
pub struct LParen;

impl Token for LParen {
    open spec fn spec_value() -> Seq<char> {
        "("@
    }

    open spec fn spec_token() -> Self {
        LParen
    }

    fn value() -> (r: &'static str) {
        "("
    }

    fn token() -> (r: Self) {
        LParen
    }
}

/// The `)` right parenthesis token.
#[derive(Debug, Clone, Copy, PartialEq, Eq, Hash, PartialOrd, Ord, Default)]
pub struct RParen;

impl Token for RParen {
    open spec fn spec_value() -> Seq<char> {
        ")"@
    }

    open spec fn spec_token() -> Self {
        RParen
    }

    fn value() -> (r: &'static str) {
        ")"
    }

    fn token() -> (r: Self) {
        RParen
    }
}

/// The `[` left bracket token.
#[derive(Debug, Clone, Copy, PartialEq, Eq, Hash, PartialOrd, Ord, Default)]
pub struct LBracket;

impl Token for LBracket {
    open spec fn spec_value() -> Seq<char> {
        "["@
    }

    open spec fn spec_token() -> Self {
        LBracket
    }

    fn value() -> (r: &'static str) {
        "["
    }

    fn token() -> (r: Self) {
        LBracket
    }
}

/// The `]` right bracket token.
#[derive(Debug, Clone, Copy, PartialEq, Eq, Hash, PartialOrd, Ord, Default)]
pub struct RBracket;

impl Token for RBracket {
    open spec fn spec_value() -> Seq<char> {
        "]"@
    }

    open spec fn spec_token() -> Self {
        RBracket
    }

    fn value() -> (r: &'static str) {
        "]"
    }

    fn token() -> (r: Self) {
        RBracket
    }
}

/// The `{` left brace token.
#[derive(Debug, Clone, Copy, PartialEq, Eq, Hash, PartialOrd, Ord, Default)]
pub struct LBrace;

impl Token for LBrace {
    open spec fn spec_value() -> Seq<char> {
        "{"@
    }

    open spec fn spec_token() -> Self {
        LBrace
    }

    fn value() -> (r: &'static str) {
        "{"
    }

    fn token() -> (r: Self) {
        LBrace
    }
}

/// The `}` right brace token.
#[derive(Debug, Clone, Copy, PartialEq, Eq, Hash, PartialOrd, Ord, Default)]
pub struct RBrace;

impl Token for RBrace {
    open spec fn spec_value() -> Seq<char> {
        "}"@
    }

    open spec fn spec_token() -> Self {
        RBrace
    }

    fn value() -> (r: &'static str) {
        "}"
    }

    fn token() -> (r: Self) {
        RBrace
    }
}

/// The `.` dot token.
#[derive(Debug, Clone, Copy, PartialEq, Eq, Hash, PartialOrd, Ord, Default)]
pub struct Dot;

impl Token for Dot {
    open spec fn spec_value() -> Seq<char> {
        "."@
    }

    open spec fn spec_token() -> Self {
        Dot
    }

    fn value() -> (r: &'static str) {
        "."
    }

    fn token() -> (r: Self) {
        Dot
    }
}

/// The `,` comma token.
#[derive(Debug, Clone, Copy, PartialEq, Eq, Hash, PartialOrd, Ord, Default)]
pub struct Comma;

impl Token for Comma {
    open spec fn spec_value() -> Seq<char> {
        ","@
    }

    open spec fn spec_token() -> Self {
        Comma
    }

    fn value() -> (r: &'static str) {
        ","
    }

    fn token() -> (r: Self) {
        Comma
    }
}

/// The `:` colon token.
#[derive(Debug, Clone, Copy, PartialEq, Eq, Hash, PartialOrd, Ord, Default)]
pub struct Colon;

impl Token for Colon {
    open spec fn spec_value() -> Seq<char> {
        ":"@
    }

    open spec fn spec_token() -> Self {
        Colon
    }

    fn value() -> (r: &'static str) {
        ":"
    }

    fn token() -> (r: Self) {
        Colon
    }
}

/// The `;` semicolon token.
#[derive(Debug, Clone, Copy, PartialEq, Eq, Hash, PartialOrd, Ord, Default)]
pub struct Semi;

impl Token for Semi {
    open spec fn spec_value() -> Seq<char> {
        ";"@
    }

    open spec fn spec_token() -> Self {
        Semi
    }

    fn value() -> (r: &'static str) {
        ";"
    }

    fn token() -> (r: Self) {
        Semi
    }
}

/// The `=` equals token.
#[derive(Debug, Clone, Copy, PartialEq, Eq, Hash, PartialOrd, Ord, Default)]
pub struct Eq;

impl Token for Eq {
    open spec fn spec_value() -> Seq<char> {
        "="@
    }

    open spec fn spec_token() -> Self {
        Eq
    }

    fn value() -> (r: &'static str) {
        "="
    }

    fn token() -> (r: Self) {
        Eq
    }
}

/// The `+` plus token.
#[derive(Debug, Clone, Copy, PartialEq, Eq, Hash, PartialOrd, Ord, Default)]
pub struct Plus;

impl Token for Plus {
    open spec fn spec_value() -> Seq<char> {
        "+"@
    }

    open spec fn spec_token() -> Self {
        Plus
    }

    fn value() -> (r: &'static str) {
        "+"
    }

    fn token() -> (r: Self) {
        Plus
    }
}

/// The `-` minus token.
#[derive(Debug, Clone, Copy, PartialEq, Eq, Hash, PartialOrd, Ord, Default)]
pub struct Minus;

impl Token for Minus {
    open spec fn spec_value() -> Seq<char> {
        "-"@
    }

    open spec fn spec_token() -> Self {
        Minus
    }

    fn value() -> (r: &'static str) {
        "-"
    }

    fn token() -> (r: Self) {
        Minus
    }
}

/// The `*` asterisk token.
#[derive(Debug, Clone, Copy, PartialEq, Eq, Hash, PartialOrd, Ord, Default)]
pub struct Star;

impl Token for Star {
    open spec fn spec_value() -> Seq<char> {
        "*"@
    }

    open spec fn spec_token() -> Self {
        Star
    }

    fn value() -> (r: &'static str) {
        "*"
    }

    fn token() -> (r: Self) {
        Star
    }
}

/// The `/` slash token.
#[derive(Debug, Clone, Copy, PartialEq, Eq, Hash, PartialOrd, Ord, Default)]
pub struct Slash;

impl Token for Slash {
    open spec fn spec_value() -> Seq<char> {
        "/"@
    }

    open spec fn spec_token() -> Self {
        Slash
    }

    fn value() -> (r: &'static str) {
        "/"
    }

    fn token() -> (r: Self) {
        Slash
    }
}

/// The `!` exclamation token.
#[derive(Debug, Clone, Copy, PartialEq, Eq, Hash, PartialOrd, Ord, Default)]
pub struct Bang;

impl Token for Bang {
    open spec fn spec_value() -> Seq<char> {
        "!"@
    }

    open spec fn spec_token() -> Self {
        Bang
    }

    fn value() -> (r: &'static str) {
        "!"
    }

    fn token() -> (r: Self) {
        Bang
    }
}

/// The `&` ampersand token.
#[derive(Debug, Clone, Copy, PartialEq, Eq, Hash, PartialOrd, Ord, Default)]
pub struct Amp;

impl Token for Amp {
    open spec fn spec_value() -> Seq<char> {
        "&"@
    }

    open spec fn spec_token() -> Self {
        Amp
    }

    fn value() -> (r: &'static str) {
        "&"
    }

    fn token() -> (r: Self) {
        Amp
    }
}

/// The `|` pipe token.
#[derive(Debug, Clone, Copy, PartialEq, Eq, Hash, PartialOrd, Ord, Default)]
pub struct Pipe;

impl Token for Pipe {
    open spec fn spec_value() -> Seq<char> {
        "|"@
    }

    open spec fn spec_token() -> Self {
        Pipe
    }

    fn value() -> (r: &'static str) {
        "|"
    }

    fn token() -> (r: Self) {
        Pipe
    }
}

/// The `<` less-than token.
#[derive(Debug, Clone, Copy, PartialEq, Eq, Hash, PartialOrd, Ord, Default)]
pub struct Lt;

impl Token for Lt {
    open spec fn spec_value() -> Seq<char> {
        "<"@
    }

    open spec fn spec_token() -> Self {
        Lt
    }

    fn value() -> (r: &'static str) {
        "<"
    }

    fn token() -> (r: Self) {
        Lt
    }
}

/// The `>` greater-than token.
#[derive(Debug, Clone, Copy, PartialEq, Eq, Hash, PartialOrd, Ord, Default)]
pub struct Gt;

impl Token for Gt {
    open spec fn spec_value() -> Seq<char> {
        ">"@
    }

    open spec fn spec_token() -> Self {
        Gt
    }

    fn value() -> (r: &'static str) {
        ">"
    }

    fn token() -> (r: Self) {
        Gt
    }
}

/// The `?` question mark token.
#[derive(Debug, Clone, Copy, PartialEq, Eq, Hash, PartialOrd, Ord, Default)]
pub struct Question;

impl Token for Question {
    open spec fn spec_value() -> Seq<char> {
        "?"@
    }

    open spec fn spec_token() -> Self {
        Question
    }

    fn value() -> (r: &'static str) {
        "?"
    }

    fn token() -> (r: Self) {
        Question
    }
}

/// The `@` at symbol token.
#[derive(Debug, Clone, Copy, PartialEq, Eq, Hash, PartialOrd, Ord, Default)]
pub struct At;

impl Token for At {
    open spec fn spec_value() -> Seq<char> {
        "@"@
    }

    open spec fn spec_token() -> Self {
        At
    }

    fn value() -> (r: &'static str) {
        "@"
    }

    fn token() -> (r: Self) {
        At
    }
}

/// The `#` hash symbol token.
#[derive(Debug, Clone, Copy, PartialEq, Eq, Hash, PartialOrd, Ord, Default)]
pub struct Hash;

impl Token for Hash {
    open spec fn spec_value() -> Seq<char> {
        "#"@
    }

    open spec fn spec_token() -> Self {
        Hash
    }

    fn value() -> (r: &'static str) {
        "#"
    }

    fn token() -> (r: Self) {
        Hash
    }
}

/// The `$` dollar sign token.
#[derive(Debug, Clone, Copy, PartialEq, Eq, Hash, PartialOrd, Ord, Default)]
pub struct Dollar;

impl Token for Dollar {
    open spec fn spec_value() -> Seq<char> {
        "$"@
    }

    open spec fn spec_token() -> Self {
        Dollar
    }

    fn value() -> (r: &'static str) {
        "$"
    }

    fn token() -> (r: Self) {
        Dollar
    }
}

/// The `%` percent sign token.
#[derive(Debug, Clone, Copy, PartialEq, Eq, Hash, PartialOrd, Ord, Default)]
pub struct Percent;

impl Token for Percent {
    open spec fn spec_value() -> Seq<char> {
        "%"@
    }

    open spec fn spec_token() -> Self {
        Percent
    }

    fn value() -> (r: &'static str) {
        "%"
    }

    fn token() -> (r: Self) {
        Percent
    }
}

/// The `^` caret token.
#[derive(Debug, Clone, Copy, PartialEq, Eq, Hash, PartialOrd, Ord, Default)]
pub struct Caret;

impl Token for Caret {
    open spec fn spec_value() -> Seq<char> {
        "^"@
    }

    open spec fn spec_token() -> Self {
        Caret
    }

    fn value() -> (r: &'static str) {
        "^"
    }

    fn token() -> (r: Self) {
        Caret
    }
}

/// The tab character token.
#[derive(Debug, Clone, Copy, PartialEq, Eq, Hash, PartialOrd, Ord, Default)]
pub struct Tab;

impl Token for Tab {
    open spec fn spec_value() -> Seq<char> {
        "\t"@
    }

    open spec fn spec_token() -> Self {
        Tab
    }

    fn value() -> (r: &'static str) {
        "\t"
    }

    fn token() -> (r: Self) {
        Tab
    }
}

/// The newline character token.
#[derive(Debug, Clone, Copy, PartialEq, Eq, Hash, PartialOrd, Ord, Default)]
pub struct Newline;

impl Token for Newline {
    open spec fn spec_value() -> Seq<char> {
        "\n"@
    }

    open spec fn spec_token() -> Self {
        Newline
    }

    fn value() -> (r: &'static str) {
        "\n"
    }

    fn token() -> (r: Self) {
        Newline
    }
}

/// The carriage return character token.
#[derive(Debug, Clone, Copy, PartialEq, Eq, Hash, PartialOrd, Ord, Default)]
pub struct CarriageReturn;

impl Token for CarriageReturn {
    open spec fn spec_value() -> Seq<char> {
        "\r"@
    }

    open spec fn spec_token() -> Self {
        CarriageReturn
    }

    fn value() -> (r: &'static str) {
        "\r"
    }

    fn token() -> (r: Self) {
        CarriageReturn
    }
}

/// The NUL character token.
#[derive(Debug, Clone, Copy, PartialEq, Eq, Hash, PartialOrd, Ord, Default)]
pub struct NullChar;

impl Token for NullChar {
    open spec fn spec_value() -> Seq<char> {
        "\0"@
    }

    open spec fn spec_token() -> Self {
        NullChar
    }

    fn value() -> (r: &'static str) {
        "\0"
    }

    fn token() -> (r: Self) {
        NullChar
    }
}

/// The `\` backslash character token.
#[derive(Debug, Clone, Copy, PartialEq, Eq, Hash, PartialOrd, Ord, Default)]
pub struct Backslash;

impl Token for Backslash {
    open spec fn spec_value() -> Seq<char> {
        "\\"@
    }

    open spec fn spec_token() -> Self {
        Backslash
    }

    fn value() -> (r: &'static str) {
        "\\"
    }

    fn token() -> (r: Self) {
        Backslash
    }
}

/// The `"` double quote character token.
#[derive(Debug, Clone, Copy, PartialEq, Eq, Hash, PartialOrd, Ord, Default)]
pub struct DoubleQuote;

impl Token for DoubleQuote {
    open spec fn spec_value() -> Seq<char> {
        "\""@
    }

    open spec fn spec_token() -> Self {
        DoubleQuote
    }

    fn value() -> (r: &'static str) {
        "\""
    }

    fn token() -> (r: Self) {
        DoubleQuote
    }
}

/// The CR LF newline sequence token.
#[derive(Debug, Clone, Copy, PartialEq, Eq, Hash, PartialOrd, Ord, Default)]
pub struct CrLf;

impl Token for CrLf {
    open spec fn spec_value() -> Seq<char> {
        "\r\n"@
    }

    open spec fn spec_token() -> Self {
        CrLf
    }

    fn value() -> (r: &'static str) {
        "\r\n"
    }

    fn token() -> (r: Self) {
        CrLf
    }
}

/// The space character token.
#[derive(Debug, Clone, Copy, PartialEq, Eq, Hash, PartialOrd, Ord, Default)]
pub struct Space;

impl Token for Space {
    open spec fn spec_value() -> Seq<char> {
        " "@
    }

    open spec fn spec_token() -> Self {
        Space
    }

    fn value() -> (r: &'static str) {
        " "
    }

    fn token() -> (r: Self) {
        Space
    }
}

/// The `true` keyword.
pub type KwTrue = Kw<True>;

/// The `false` keyword.
pub type KwFalse = Kw<False>;

/// The `null` keyword.
pub type KwNull = Kw<Null>;

} // verus!
