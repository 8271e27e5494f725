use vstd::prelude::*;
use vstd::string::StrSliceExecFns;

verus! {

/// Reserved words of the language.
#[derive(Clone, Copy, Debug, PartialEq, Eq, Structural)]
pub enum Keyword {
    Do,
    If,
    Then,
    Else,
    Loop,
    Break,
    Continue,
    Return,
    True,
    False,
    Mut,
    As,
}

/// The kinds of tokens.
#[derive(Clone, Copy, Debug, PartialEq, Eq, Structural)]
pub enum TokenKind {
    /// A name starting with a lower-case letter or `_`.
    Ident,
    /// A name starting with an upper-case letter.
    TypeName,
    /// `_`
    Underscore,
    Number,
    /// A string literal; the token text keeps the quotes and escapes.
    Str,
    Keyword(Keyword),
    /// An operator other than those below; its text says which.
    Operator,
    /// `=`
    Assign,
    /// `->`
    Arrow,
    /// `!->`
    BangArrow,
    /// `<-`
    BindArrow,
    OpenParen,
    CloseParen,
    OpenBracket,
    CloseBracket,
    Comma,
    Dot,
    /// `..`
    DotDot,
    /// `..=`
    DotDotEq,
    Colon,
    /// `::`
    PathSep,
    Semicolon,
    /// `!`
    Bang,
    /// `?`
    Question,
    /// A `//` comment occupying a whole line; the text holds it.
    Comment,
    /// The end of a line.
    Eol,
}

/// A range of characters of the source: from `start` up to, not including, `end`.
#[derive(Clone, Copy, Debug, PartialEq, Eq, Structural)]
pub struct SourceSpan {
    pub start: usize,
    pub end: usize,
}

/// A token with its position in the source.
#[derive(Clone, Debug)]
pub struct Token {
    pub kind: TokenKind,
    pub text: String,
    /// Index of the source line (from 0).
    pub line: usize,
    /// Number of spaces that indent the token's line.
    pub indent: usize,
    /// Whether the token is the first on its line.
    pub first_on_line: bool,
    /// Whether a space (or the line start) precedes the token.
    pub space_before: bool,
    /// Whether a space (or the line end) follows the token.
    pub space_after: bool,
    /// The characters of the source that the token stands for; an end of
    /// line has an empty span just after its line.
    pub span: SourceSpan,
}

/// Lexing failures.
#[derive(Clone, Copy, Debug, PartialEq, Eq, Structural)]
pub enum LexError {
    UnterminatedString,
    UnexpectedCharacter,
}

pub open spec fn is_lower(c: char) -> bool {
    ('a' <= c && c <= 'z') || c == '_'
}

pub open spec fn is_upper(c: char) -> bool {
    'A' <= c && c <= 'Z'
}

pub open spec fn is_digit(c: char) -> bool {
    '0' <= c && c <= '9'
}

pub open spec fn is_ident_char(c: char) -> bool {
    is_lower(c) || is_upper(c) || is_digit(c)
}

/// Characters that run together into one operator.
pub open spec fn is_operator_char(c: char) -> bool {
    c == '+' || c == '-' || c == '*' || c == '/' || c == '%' || c == '<' || c == '>' || c == '='
        || c == '|' || c == '&' || c == '^' || c == '~' || c == '$' || c == '@'
}

fn lower(c: char) -> (r: bool)
    ensures
        r == is_lower(c),
{
    ('a' <= c && c <= 'z') || c == '_'
}

fn upper(c: char) -> (r: bool)
    ensures
        r == is_upper(c),
{
    'A' <= c && c <= 'Z'
}

fn digit(c: char) -> (r: bool)
    ensures
        r == is_digit(c),
{
    '0' <= c && c <= '9'
}

fn ident_char(c: char) -> (r: bool)
    ensures
        r == is_ident_char(c),
{
    lower(c) || upper(c) || digit(c)
}

fn operator_char(c: char) -> (r: bool)
    ensures
        r == is_operator_char(c),
{
    c == '+' || c == '-' || c == '*' || c == '/' || c == '%' || c == '<' || c == '>' || c == '='
        || c == '|' || c == '&' || c == '^' || c == '~' || c == '$' || c == '@'
}

/// The characters of a string.
fn chars_of(source: &str) -> (r: Vec<char>)
    ensures
        r@ == source@,
{
    let mut out: Vec<char> = Vec::new();
    let n = source.unicode_len();
    let mut i: usize = 0;
    while i < n
        invariant
            i <= n,
            n == source@.len(),
            out@ == source@.take(i as int),
        decreases n - i,
    {
        out.push(source.get_char(i));
        i = i + 1;
        assert(out@ =~= source@.take(i as int));
    }
    assert(source@.take(n as int) =~= source@);
    out
}

/// Whether `chars[from..to]` spells `word`.
fn spells(chars: &Vec<char>, from: usize, to: usize, word: &str) -> (r: bool)
    requires
        from <= to <= chars@.len(),
    ensures
        r == (chars@.subrange(from as int, to as int) == word@),
{
    let n = word.unicode_len();
    if to - from != n {
        return false;
    }
    let mut i: usize = 0;
    while i < n
        invariant
            i <= n,
            n == word@.len(),
            to - from == n,
            from <= to <= chars@.len(),
            forall|j: int| 0 <= j < i ==> chars@[from + j] == word@[j],
        decreases n - i,
    {
        if chars[from + i] != word.get_char(i) {
            assert(chars@.subrange(from as int, to as int)[i as int] != word@[i as int]);
            return false;
        }
        i = i + 1;
    }
    assert(chars@.subrange(from as int, to as int) =~= word@);
    true
}

fn keyword(chars: &Vec<char>, from: usize, to: usize) -> (r: Option<Keyword>)
    requires
        from <= to <= chars@.len(),
    ensures
        r matches Some(k) ==> chars@.subrange(from as int, to as int) == keyword_word(k),
        r is None ==> !is_keyword_word(chars@.subrange(from as int, to as int)),
        r == keyword_named(chars@.subrange(from as int, to as int)),
{
    proof {
        reveal_strlit("do");
        assert("do"@ =~= keyword_word(Keyword::Do));
        reveal_strlit("if");
        assert("if"@ =~= keyword_word(Keyword::If));
        reveal_strlit("then");
        assert("then"@ =~= keyword_word(Keyword::Then));
        reveal_strlit("else");
        assert("else"@ =~= keyword_word(Keyword::Else));
        reveal_strlit("loop");
        assert("loop"@ =~= keyword_word(Keyword::Loop));
        reveal_strlit("break");
        assert("break"@ =~= keyword_word(Keyword::Break));
        reveal_strlit("continue");
        assert("continue"@ =~= keyword_word(Keyword::Continue));
        reveal_strlit("return");
        assert("return"@ =~= keyword_word(Keyword::Return));
        reveal_strlit("true");
        assert("true"@ =~= keyword_word(Keyword::True));
        reveal_strlit("false");
        assert("false"@ =~= keyword_word(Keyword::False));
        reveal_strlit("mut");
        assert("mut"@ =~= keyword_word(Keyword::Mut));
        reveal_strlit("as");
        assert("as"@ =~= keyword_word(Keyword::As));
    }
    if spells(chars, from, to, "do") {
        Some(Keyword::Do)
    } else if spells(chars, from, to, "if") {
        Some(Keyword::If)
    } else if spells(chars, from, to, "then") {
        Some(Keyword::Then)
    } else if spells(chars, from, to, "else") {
        Some(Keyword::Else)
    } else if spells(chars, from, to, "loop") {
        Some(Keyword::Loop)
    } else if spells(chars, from, to, "break") {
        Some(Keyword::Break)
    } else if spells(chars, from, to, "continue") {
        Some(Keyword::Continue)
    } else if spells(chars, from, to, "return") {
        Some(Keyword::Return)
    } else if spells(chars, from, to, "true") {
        Some(Keyword::True)
    } else if spells(chars, from, to, "false") {
        Some(Keyword::False)
    } else if spells(chars, from, to, "mut") {
        Some(Keyword::Mut)
    } else if spells(chars, from, to, "as") {
        Some(Keyword::As)
    } else {
        None
    }
}

fn operator_kind(chars: &Vec<char>, from: usize, to: usize) -> (r: TokenKind)
    requires
        from <= to <= chars@.len(),
    ensures
        (r == TokenKind::Assign) == (chars@.subrange(from as int, to as int) == seq!['=']),
        (r == TokenKind::Arrow) == (chars@.subrange(from as int, to as int) == seq!['-', '>']),
        (r == TokenKind::BindArrow) == (chars@.subrange(from as int, to as int) == seq!['<', '-']),
        r == TokenKind::Assign || r == TokenKind::Arrow || r == TokenKind::BindArrow || r
            == TokenKind::Operator,
{
    proof {
        reveal_strlit("=");
        reveal_strlit("->");
        reveal_strlit("<-");
        assert("="@ =~= seq!['=']);
        assert("->"@ =~= seq!['-', '>']);
        assert("<-"@ =~= seq!['<', '-']);
    }
    if spells(chars, from, to, "=") {
        TokenKind::Assign
    } else if spells(chars, from, to, "->") {
        TokenKind::Arrow
    } else if spells(chars, from, to, "<-") {
        TokenKind::BindArrow
    } else {
        TokenKind::Operator
    }
}

/// The spelling of a keyword.
pub open spec fn keyword_word(k: Keyword) -> Seq<char> {
    match k {
        Keyword::Do => seq!['d', 'o'],
        Keyword::If => seq!['i', 'f'],
        Keyword::Then => seq!['t', 'h', 'e', 'n'],
        Keyword::Else => seq!['e', 'l', 's', 'e'],
        Keyword::Loop => seq!['l', 'o', 'o', 'p'],
        Keyword::Break => seq!['b', 'r', 'e', 'a', 'k'],
        Keyword::Continue => seq!['c', 'o', 'n', 't', 'i', 'n', 'u', 'e'],
        Keyword::Return => seq!['r', 'e', 't', 'u', 'r', 'n'],
        Keyword::True => seq!['t', 'r', 'u', 'e'],
        Keyword::False => seq!['f', 'a', 'l', 's', 'e'],
        Keyword::Mut => seq!['m', 'u', 't'],
        Keyword::As => seq!['a', 's'],
    }
}

/// The keyword that `s` spells, if any.
pub open spec fn keyword_named(s: Seq<char>) -> Option<Keyword> {
    if s == keyword_word(Keyword::Do) {
        Some(Keyword::Do)
    } else if s == keyword_word(Keyword::If) {
        Some(Keyword::If)
    } else if s == keyword_word(Keyword::Then) {
        Some(Keyword::Then)
    } else if s == keyword_word(Keyword::Else) {
        Some(Keyword::Else)
    } else if s == keyword_word(Keyword::Loop) {
        Some(Keyword::Loop)
    } else if s == keyword_word(Keyword::Break) {
        Some(Keyword::Break)
    } else if s == keyword_word(Keyword::Continue) {
        Some(Keyword::Continue)
    } else if s == keyword_word(Keyword::Return) {
        Some(Keyword::Return)
    } else if s == keyword_word(Keyword::True) {
        Some(Keyword::True)
    } else if s == keyword_word(Keyword::False) {
        Some(Keyword::False)
    } else if s == keyword_word(Keyword::Mut) {
        Some(Keyword::Mut)
    } else if s == keyword_word(Keyword::As) {
        Some(Keyword::As)
    } else {
        None
    }
}

/// Whether `s` spells a keyword.
pub open spec fn is_keyword_word(s: Seq<char>) -> bool {
    ||| s == keyword_word(Keyword::Do)
    ||| s == keyword_word(Keyword::If)
    ||| s == keyword_word(Keyword::Then)
    ||| s == keyword_word(Keyword::Else)
    ||| s == keyword_word(Keyword::Loop)
    ||| s == keyword_word(Keyword::Break)
    ||| s == keyword_word(Keyword::Continue)
    ||| s == keyword_word(Keyword::Return)
    ||| s == keyword_word(Keyword::True)
    ||| s == keyword_word(Keyword::False)
    ||| s == keyword_word(Keyword::Mut)
    ||| s == keyword_word(Keyword::As)
}

pub open spec fn all_ident_chars(s: Seq<char>) -> bool {
    forall|j: int| 0 <= j < s.len() ==> is_ident_char(#[trigger] s[j])
}

pub open spec fn all_digits(s: Seq<char>) -> bool {
    forall|j: int| 0 <= j < s.len() ==> is_digit(#[trigger] s[j])
}

/// A token's text is what its kind says: a name starts with a letter of
/// its case (or `_`) and is no keyword, a number is digits, a string is
/// quoted, a comment starts with `//`, the end of a line has no text, and
/// every other token is exactly its punctuation.
pub open spec fn token_text_fits(t: Token) -> bool {
    let s = t.text@;
    match t.kind {
        TokenKind::Ident => s.len() > 0 && is_lower(s[0]) && all_ident_chars(s) && !is_keyword_word(s)
            && s != seq!['_'],
        TokenKind::TypeName => s.len() > 0 && is_upper(s[0]) && all_ident_chars(s),
        TokenKind::Underscore => s == seq!['_'],
        TokenKind::Number => s.len() > 0 && all_digits(s),
        TokenKind::Str => s.len() >= 2 && s[0] == '"' && s[s.len() - 1] == '"',
        TokenKind::Keyword(k) => s == keyword_word(k),
        TokenKind::Operator => s.len() > 0,
        TokenKind::Assign => s == seq!['='],
        TokenKind::Arrow => s == seq!['-', '>'],
        TokenKind::BangArrow => s == seq!['!', '-', '>'],
        TokenKind::BindArrow => s == seq!['<', '-'],
        TokenKind::OpenParen => s == seq!['('],
        TokenKind::CloseParen => s == seq![')'],
        TokenKind::OpenBracket => s == seq!['['],
        TokenKind::CloseBracket => s == seq![']'],
        TokenKind::Comma => s == seq![','],
        TokenKind::Dot => s == seq!['.'],
        TokenKind::DotDot => s == seq!['.', '.'],
        TokenKind::DotDotEq => s == seq!['.', '.', '='],
        TokenKind::Colon => s == seq![':'],
        TokenKind::PathSep => s == seq![':', ':'],
        TokenKind::Semicolon => s == seq![';'],
        TokenKind::Bang => s == seq!['!'],
        TokenKind::Question => s == seq!['?'],
        TokenKind::Comment => s.len() >= 2 && s[0] == '/' && s[1] == '/',
        TokenKind::Eol => s.len() == 0,
    }
}

/// How the token at `i` is linked to the one before it: it is marked first
/// exactly when it starts a line, it shares the line and indentation of a
/// token before it on its line, and an end of line closes a line that has
/// tokens.
pub open spec fn linked_at(ts: Seq<Token>, i: int) -> bool {
    &&& ts[i].first_on_line == (ts[i].kind != TokenKind::Eol && (i == 0 || ts[i - 1].kind
        == TokenKind::Eol))
    &&& (i > 0 && ts[i - 1].kind != TokenKind::Eol ==> ts[i].line == ts[i - 1].line && ts[i].indent
        == ts[i - 1].indent)
    &&& (ts[i].kind == TokenKind::Eol ==> i > 0 && ts[i - 1].kind != TokenKind::Eol)
}

/// The tokens of each line are linked: only a line's first token is marked
/// first, the tokens of a line share its index and indentation, and no line
/// is empty.
pub open spec fn line_links(ts: Seq<Token>) -> bool {
    forall|i: int| 0 <= i < ts.len() ==> #[trigger] linked_at(ts, i)
}

/// Every token lies on a line, and each line's tokens end with an end-of-line token.
pub open spec fn tokens_end_lines(tokens: Seq<Token>) -> bool {
    tokens.len() > 0 ==> tokens.last().kind == TokenKind::Eol
}

/// A word that lexes to a single token: digits, a name that starts with a
/// small letter or `_`, `=` or `->`.
pub open spec fn plain_word(w: Seq<char>) -> bool {
    ||| w.len() > 0 && all_digits(w)
    ||| w.len() > 0 && is_lower(w[0]) && all_ident_chars(w)
    ||| w == seq!['=']
    ||| w == seq!['-', '>']
}

/// The kind of the token that a plain word lexes to.
pub open spec fn word_kind(w: Seq<char>) -> TokenKind {
    if w == seq!['='] {
        TokenKind::Assign
    } else if w == seq!['-', '>'] {
        TokenKind::Arrow
    } else if w.len() > 0 && is_digit(w[0]) {
        TokenKind::Number
    } else {
        match keyword_named(w) {
            Some(k) => TokenKind::Keyword(k),
            None => if w == seq!['_'] {
                TokenKind::Underscore
            } else {
                TokenKind::Ident
            },
        }
    }
}

/// The words `if` and `then` lex to their keywords.
pub(crate) proof fn lemma_if_then_words()
    ensures
        word_kind(keyword_word(Keyword::If)) == TokenKind::Keyword(Keyword::If),
        word_kind(keyword_word(Keyword::Then)) == TokenKind::Keyword(Keyword::Then),
        plain_word(keyword_word(Keyword::If)),
        plain_word(keyword_word(Keyword::Then)),
{
    let w = keyword_word(Keyword::If);
    assert(w[0] != keyword_word(Keyword::Do)[0]);
    assert(w[0] != '=' && w[0] != '-');
    assert(w.len() == 2);
    assert(all_ident_chars(w)) by {
        assert forall|j: int| 0 <= j < w.len() implies is_ident_char(#[trigger] w[j]) by {
            if j == 0 {
                assert(w[j] == 'i');
            } else {
                assert(w[j] == 'f');
            }
        }
    }
    let t = keyword_word(Keyword::Then);
    assert(t.len() == 4);
    assert(t[0] == 't');
    assert(all_ident_chars(t)) by {
        assert forall|j: int| 0 <= j < t.len() implies is_ident_char(#[trigger] t[j]) by {
            assert(t[j] == 't' || t[j] == 'h' || t[j] == 'e' || t[j] == 'n');
        }
    }
    assert(t[0] != keyword_word(Keyword::Else)[0]);
    assert(t[0] != keyword_word(Keyword::Loop)[0]);
}

/// At the start of a word of a plain line: the word's text follows, then
/// the end of the source or a space and the remaining words.
proof fn lemma_at_word(source: Seq<char>, i: int, ws: Seq<Seq<char>>, wi: int)
    requires
        0 <= i <= source.len(),
        0 <= wi < ws.len(),
        forall|k: int| 0 <= k < ws.len() ==> plain_word(#[trigger] ws[k]),
        source.subrange(i, source.len() as int) == spaced(ws.subrange(wi, ws.len() as int)),
    ensures
        plain_word(ws[wi]),
        ws[wi].len() > 0,
        i + ws[wi].len() <= source.len(),
        source.subrange(i, i + ws[wi].len()) == ws[wi],
        source[i] == ws[wi][0],
        wi + 1 == ws.len() ==> i + ws[wi].len() == source.len(),
        wi + 1 < ws.len() ==> i + ws[wi].len() < source.len() && source[i + ws[wi].len()] == ' '
            && source.subrange(i + ws[wi].len(), source.len() as int) == seq![' '] + spaced(
            ws.subrange(wi + 1, ws.len() as int),
        ),
{
    let rest = ws.subrange(wi, ws.len() as int);
    let text = source.subrange(i, source.len() as int);
    let w = ws[wi];
    assert(rest[0] == w);
    assert forall|k: int| 0 <= k < rest.len() implies plain_word(#[trigger] rest[k]) by {
        assert(rest[k] == ws[wi + k]);
    }
    lemma_next_word(text, rest);
    assert(source.subrange(i, i + w.len()) =~= w) by {
        assert forall|j: int| 0 <= j < w.len() implies #[trigger] source.subrange(i, i + w.len())[j]
            == w[j] by {
            assert(text[j] == w[j]);
        }
    }
    assert(text[0] == w[0]);
    if wi + 1 < ws.len() {
        assert(rest.drop_first() =~= ws.subrange(wi + 1, ws.len() as int));
        assert(source.subrange(i + w.len(), source.len() as int) =~= text.subrange(
            w.len() as int,
            text.len() as int,
        ));
        assert(text[w.len() as int] == ' ');
    }
}

/// A plain line splits into its words in one way only.
proof fn lemma_plain_line_unique(source: Seq<char>, a: Seq<Seq<char>>, b: Seq<Seq<char>>)
    requires
        plain_line(source, a),
        plain_line(source, b),
    ensures
        a == b,
    decreases a.len(),
{
    let wa = a[0];
    let wb = b[0];
    assert(a.subrange(0, a.len() as int) =~= a);
    assert(b.subrange(0, b.len() as int) =~= b);
    assert(source.subrange(0, source.len() as int) =~= source);
    lemma_at_word(source, 0, a, 0);
    lemma_at_word(source, 0, b, 0);
    assert(plain_word(wa) && plain_word(wb));
    if wa.len() < wb.len() {
        assert(source[wa.len() as int] == source.subrange(0, wb.len() as int)[wa.len() as int]);
        assert(source[wa.len() as int] == wb[wa.len() as int]);
        assert(false);
    }
    if wb.len() < wa.len() {
        assert(source[wb.len() as int] == source.subrange(0, wa.len() as int)[wb.len() as int]);
        assert(source[wb.len() as int] == wa[wb.len() as int]);
        assert(false);
    }
    assert(wa == wb);
    if a.len() > 1 && b.len() > 1 {
        let rest = source.subrange(wa.len() + 1 as int, source.len() as int);
        assert(a.drop_first() =~= a.subrange(1, a.len() as int));
        assert(b.drop_first() =~= b.subrange(1, b.len() as int));
        assert(rest =~= source.subrange(wa.len() as int, source.len() as int).subrange(
            1,
            source.len() - wa.len(),
        ));
        assert(rest == spaced(a.drop_first()));
        assert(rest == spaced(b.drop_first()));
        assert forall|k: int| 0 <= k < a.drop_first().len() implies plain_word(
            #[trigger] a.drop_first()[k],
        ) by {
            assert(a.drop_first()[k] == a[k + 1]);
        }
        assert forall|k: int| 0 <= k < b.drop_first().len() implies plain_word(
            #[trigger] b.drop_first()[k],
        ) by {
            assert(b.drop_first()[k] == b[k + 1]);
        }
        lemma_plain_line_unique(rest, a.drop_first(), b.drop_first());
        assert(a =~= seq![wa] + a.drop_first());
        assert(b =~= seq![wb] + b.drop_first());
    }
    assert(a.len() == b.len());
    if a.len() == 1 {
        assert(a =~= b);
    }
}

/// Just after a word of a plain line that other words follow: a space, and
/// then those words.
proof fn lemma_after_word(source: Seq<char>, i: int, ws: Seq<Seq<char>>, wi: int)
    requires
        0 <= i <= source.len(),
        0 <= wi < ws.len(),
        source.subrange(i, source.len() as int) == seq![' '] + spaced(ws.subrange(wi, ws.len() as int)),
    ensures
        i < source.len(),
        source[i] == ' ',
        source.subrange(i + 1, source.len() as int) == spaced(ws.subrange(wi, ws.len() as int)),
{
    let text = source.subrange(i, source.len() as int);
    assert(text[0] == ' ');
    assert(source.subrange(i + 1, source.len() as int) =~= text.subrange(1, text.len() as int));
    assert(text.subrange(1, text.len() as int) =~= spaced(ws.subrange(wi, ws.len() as int)));
}

/// Words joined by single spaces.
pub open spec fn spaced(words: Seq<Seq<char>>) -> Seq<char>
    decreases words.len(),
{
    if words.len() == 0 {
        seq![]
    } else if words.len() == 1 {
        words[0]
    } else {
        words[0] + seq![' '] + spaced(words.drop_first())
    }
}

/// Whether `tokens` are one token for each of `words`, of its kind and with
/// its text, and then the end of the line.
pub open spec fn lexes_words(tokens: Seq<Token>, words: Seq<Seq<char>>) -> bool {
    &&& tokens.len() == words.len() + 1
    &&& tokens.last().kind == TokenKind::Eol
    &&& forall|k: int|
        0 <= k < words.len() ==> #[trigger] tokens[k].kind == word_kind(words[k]) && tokens[k].text@
            == words[k] && tokens[k].indent == 0
}

/// Whether `source` is plain words joined by single spaces.
pub open spec fn plain_line(source: Seq<char>, words: Seq<Seq<char>>) -> bool {
    &&& words.len() > 0
    &&& forall|k: int| 0 <= k < words.len() ==> plain_word(#[trigger] words[k])
    &&& source == spaced(words)
}

/// What the text left at a word boundary says of the next word.
proof fn lemma_next_word(text: Seq<char>, rest: Seq<Seq<char>>)
    requires
        rest.len() > 0,
        text == spaced(rest),
        forall|k: int| 0 <= k < rest.len() ==> plain_word(#[trigger] rest[k]),
    ensures
        rest[0].len() > 0,
        rest[0].len() <= text.len(),
        forall|j: int| 0 <= j < rest[0].len() ==> #[trigger] text[j] == rest[0][j],
        rest.len() == 1 ==> text.len() == rest[0].len(),
        rest.len() > 1 ==> text.subrange(rest[0].len() as int, text.len() as int) == seq![' ']
            + spaced(rest.drop_first()),
        rest.len() > 1 ==> text.len() > rest[0].len() && text[rest[0].len() as int] == ' ',
{
    assert(plain_word(rest[0]));
    if rest.len() > 1 {
        let w = rest[0];
        assert(text == w + seq![' '] + spaced(rest.drop_first()));
        assert(text.subrange(w.len() as int, text.len() as int) =~= seq![' '] + spaced(
            rest.drop_first(),
        ));
        assert(text[w.len() as int] == ' ');
    }
}

/// Whether `a` is `b` but for the spaces noted around it.
pub open spec fn same_but_spacing(a: Token, b: Token) -> bool {
    &&& a.kind == b.kind
    &&& a.text == b.text
    &&& a.line == b.line
    &&& a.indent == b.indent
    &&& a.first_on_line == b.first_on_line
    &&& a.span == b.span
}

proof fn lemma_spacing_keeps_lines(a: Seq<Token>, b: Seq<Token>)
    requires
        a.len() == b.len(),
        forall|k: int| 0 <= k < a.len() ==> same_but_spacing(#[trigger] a[k], b[k]),
        line_links(b),
        forall|k: int| 0 <= k < b.len() ==> token_text_fits(#[trigger] b[k]),
    ensures
        line_links(a),
        tokens_end_lines(a) == tokens_end_lines(b),
        forall|k: int| 0 <= k < a.len() ==> token_text_fits(#[trigger] a[k]),
{
    assert forall|k: int| 0 <= k < a.len() implies token_text_fits(#[trigger] a[k]) by {
        assert(same_but_spacing(a[k], b[k]));
        assert(token_text_fits(b[k]));
    }
    assert forall|k: int| 0 <= k < a.len() implies #[trigger] linked_at(a, k) by {
        assert(linked_at(b, k));
        assert(same_but_spacing(a[k], b[k]));
        if k > 0 {
            assert(same_but_spacing(a[k - 1], b[k - 1]));
        }
    }
    if a.len() > 0 {
        assert(same_but_spacing(a[a.len() - 1], b[b.len() - 1]));
    }
}

/// Whether `a` is `b` with a space noted after its last token and nothing
/// else changed.
#[verifier::opaque]
pub open spec fn space_marked_after(a: Seq<Token>, b: Seq<Token>) -> bool {
    &&& a.len() == b.len()
    &&& forall|k: int| 0 <= k < b.len() - 1 ==> a[k] == b[k]
    &&& same_but_spacing(a.last(), b.last())
    &&& a.last().space_after
    &&& a.last().space_before == b.last().space_before
}

/// Notes that a space follows the last token.
fn mark_space_after(tokens: &mut Vec<Token>)
    requires
        old(tokens)@.len() > 0,
    ensures
        final(tokens)@.len() == old(tokens)@.len(),
        forall|k: int|
            0 <= k < old(tokens)@.len() ==> same_but_spacing(#[trigger] final(tokens)@[k], old(tokens)@[k]),
        space_marked_after(final(tokens)@, old(tokens)@),
{
    let ghost before = tokens@;
    let mut t = tokens.pop().unwrap();
    t.space_after = true;
    tokens.push(t);
    assert forall|k: int| 0 <= k < before.len() implies same_but_spacing(#[trigger] tokens@[k], before[k]) by {
        if k < before.len() - 1 {
            assert(tokens@[k] == before[k]);
        }
    }
    proof {
        reveal(space_marked_after);
    }
}

proof fn lemma_push_token(ts: Seq<Token>, t: Token)
    requires
        line_links(ts),
        t.kind != TokenKind::Eol,
        t.first_on_line == (ts.len() == 0 || ts.last().kind == TokenKind::Eol),
        ts.len() > 0 && ts.last().kind != TokenKind::Eol ==> t.line == ts.last().line && t.indent
            == ts.last().indent,
    ensures
        line_links(ts.push(t)),
{
    let u = ts.push(t);
    assert forall|k: int| 0 <= k < u.len() implies #[trigger] linked_at(u, k) by {
        if k < ts.len() {
            assert(linked_at(ts, k));
            assert(u[k] == ts[k]);
            if k > 0 {
                assert(u[k - 1] == ts[k - 1]);
            }
        } else if k > 0 {
            assert(u[k - 1] == ts.last());
        }
    }
}

proof fn lemma_push_eol(ts: Seq<Token>, t: Token)
    requires
        line_links(ts),
        ts.len() > 0,
        ts.last().kind != TokenKind::Eol,
        t.kind == TokenKind::Eol,
        !t.first_on_line,
        t.line == ts.last().line,
        t.indent == ts.last().indent,
    ensures
        line_links(ts.push(t)),
        tokens_end_lines(ts.push(t)),
{
    let u = ts.push(t);
    assert forall|k: int| 0 <= k < u.len() implies #[trigger] linked_at(u, k) by {
        if k < ts.len() {
            assert(linked_at(ts, k));
            assert(u[k] == ts[k]);
            if k > 0 {
                assert(u[k - 1] == ts[k - 1]);
            }
        } else {
            assert(u[k - 1] == ts.last());
        }
    }
}

/// Characters that can stand in source text outside comments.
pub open spec fn lexable_char(c: char) -> bool {
    ||| is_ident_char(c)
    ||| is_operator_char(c)
    ||| c == '"' || c == '.' || c == '!' || c == ':' || c == '?' || c == '(' || c == ')'
    ||| c == '[' || c == ']' || c == ',' || c == ';'
    ||| c == ' ' || c == '\t' || c == '\r' || c == '\n'
}

/// Splits source text into tokens. Blank lines give no tokens; every other
/// line ends with an [`TokenKind::Eol`] token; a line holding only a `//`
/// comment gives a [`TokenKind::Comment`] token; a comment after code ends its line.
#[verifier::rlimit(30)]
pub fn lex(source: &str) -> (r: Result<Vec<Token>, LexError>)
    ensures
        r matches Ok(tokens) ==> {
            &&& tokens_end_lines(tokens@)
            &&& line_links(tokens@)
            &&& forall|k: int| 0 <= k < tokens@.len() ==> token_text_fits(#[trigger] tokens@[k])
        },
        (forall|j: int| 0 <= j < source@.len() ==> #[trigger] source@[j] == ' ' || source@[j] == '\n')
            ==> (r matches Ok(tokens) && tokens@.len() == 0),
        source@.len() > 0 && all_digits(source@) ==> (r matches Ok(tokens) && tokens@.len() == 2
            && tokens@[0].kind == TokenKind::Number && tokens@[0].text@ == source@ && tokens@[1].kind
            == TokenKind::Eol),
        r matches Err(LexError::UnexpectedCharacter) ==> exists|j: int|
            0 <= j < source@.len() && !lexable_char(#[trigger] source@[j]),
        r matches Err(LexError::UnterminatedString) ==> exists|j: int|
            0 <= j < source@.len() && #[trigger] source@[j] == '"',
        forall|words: Seq<Seq<char>>|
            #[trigger] plain_line(source@, words) ==> (r matches Ok(tokens) && lexes_words(
                tokens@,
                words,
            )),
{
    proof {
        reveal_strlit("_");
        assert("_"@ =~= seq!['_']);
    }
    let chars = chars_of(source);
    let n = chars.len();
    let mut tokens: Vec<Token> = Vec::new();
    let mut i: usize = 0;
    let mut line: usize = 0;
    let ghost blank = forall|j: int| 0 <= j < source@.len() ==> #[trigger] source@[j] == ' ' || source@[j]
        == '\n';
    let ghost digits = source@.len() > 0 && all_digits(source@);
    let ghost simple = exists|words: Seq<Seq<char>>| #[trigger] plain_line(source@, words);
    let ghost ws: Seq<Seq<char>> = choose|words: Seq<Seq<char>>| #[trigger] plain_line(source@, words);
    let ghost mut wi: int = 0;
    let ghost mut at_word: bool = true;
    proof {
        if simple {
            assert(ws.subrange(0, ws.len() as int) =~= ws);
            assert(source@.subrange(0, source@.len() as int) =~= source@);
            lemma_at_word(source@, 0, ws, 0);
        }
    }
    while i < n
        invariant
            i <= n,
            n == chars@.len(),
            chars@ == source@,
            blank == (forall|j: int| 0 <= j < source@.len() ==> #[trigger] source@[j] == ' ' || source@[j]
                == '\n'),
            digits == (source@.len() > 0 && all_digits(source@)),
            blank ==> tokens@.len() == 0,
            digits ==> (i == 0 && tokens@.len() == 0) || (i == n && tokens@.len() == 2
                && tokens@[0].kind == TokenKind::Number && tokens@[0].text@ == source@
                && tokens@[1].kind == TokenKind::Eol),
            "_"@ == seq!['_'],
            tokens_end_lines(tokens@),
            line_links(tokens@),
            forall|k: int| 0 <= k < tokens@.len() ==> token_text_fits(#[trigger] tokens@[k]),
            simple == (exists|words: Seq<Seq<char>>| #[trigger] plain_line(source@, words)),
            simple ==> plain_line(source@, ws),
            simple ==> (i == 0 && tokens@.len() == 0 && n > 0 && chars@[0] != ' ') || (i == n
                && lexes_words(tokens@, ws)),
            simple && i == 0 ==> source@.subrange(0, n as int) == spaced(ws.subrange(0, ws.len() as int))
                && wi == 0 && at_word,
        decreases n - i,
    {
        // The start of a line: measure its indentation.
        let line_start = i;
        let mut indent: usize = 0;
        while i < n && chars[i] == ' '
            invariant
                line_start <= i <= n,
                line_start < n,
                n == chars@.len(),
                indent <= i,
                chars@ == source@,
                digits == (source@.len() > 0 && all_digits(source@)),
                digits ==> i == line_start,
                simple ==> i == 0 && line_start == 0 && chars@[0] != ' ',
            decreases n - i,
        {
            indent = indent + 1;
            i = i + 1;
        }
        let mut first = true;
        let mut space_before = true;
        let mut ended = false;
        while i < n && !ended
            invariant
                line_start <= i <= n,
                line_start < n,
                i == line_start ==> !ended,
                n == chars@.len(),
                chars@ == source@,
                "_"@ == seq!['_'],
                line_links(tokens@),
                forall|k: int| 0 <= k < tokens@.len() ==> token_text_fits(#[trigger] tokens@[k]),
                first ==> tokens_end_lines(tokens@),
                !first ==> tokens@.len() > 0 && tokens@.last().kind != TokenKind::Eol
                    && tokens@.last().line == line && tokens@.last().indent == indent,
                blank == (forall|j: int| 0 <= j < source@.len() ==> #[trigger] source@[j] == ' '
                    || source@[j] == '\n'),
                digits == (source@.len() > 0 && all_digits(source@)),
                blank ==> first && tokens@.len() == 0,
                digits ==> (first && i == 0 && line_start == 0 && tokens@.len() == 0) || (!first && i
                    == n && tokens@.len() == 1 && tokens@[0].kind == TokenKind::Number
                    && tokens@[0].text@ == source@),
                simple == (exists|words: Seq<Seq<char>>| #[trigger] plain_line(source@, words)),
                simple ==> plain_line(source@, ws) && !ended,
                simple ==> 0 <= wi <= ws.len() && tokens@.len() == wi && first == (wi == 0),
                simple ==> indent == 0,
                simple ==> forall|k: int|
                    0 <= k < wi ==> #[trigger] tokens@[k].kind == word_kind(ws[k]) && tokens@[k].text@
                        == ws[k] && tokens@[k].indent == 0,
                simple && at_word ==> wi < ws.len() && source@.subrange(i as int, n as int) == spaced(
                    ws.subrange(wi, ws.len() as int),
                ),
                simple && !at_word ==> wi > 0 && (wi < ws.len() ==> source@.subrange(i as int, n as int)
                    == seq![' '] + spaced(ws.subrange(wi, ws.len() as int))) && (wi == ws.len() ==> i
                    == n),
            decreases n - i,
        {
            proof {
                if simple {
                    if at_word {
                        lemma_at_word(source@, i as int, ws, wi);
                    } else if wi < ws.len() {
                        lemma_after_word(source@, i as int, ws, wi);
                    }
                }
            }
            let c = chars[i];
            if c == '\n' {
                i = i + 1;
                ended = true;
            } else if c == ' ' || c == '\t' || c == '\r' {
                i = i + 1;
                space_before = true;
                if tokens.len() > 0 && !first {
                    let ghost before = tokens@;
                    mark_space_after(&mut tokens);
                    proof {
                        lemma_spacing_keeps_lines(tokens@, before);
                        assert(same_but_spacing(tokens@[tokens@.len() - 1], before[before.len() - 1]));
                        if simple {
                            assert forall|k: int| 0 <= k < wi implies #[trigger] tokens@[k].kind
                                == word_kind(ws[k]) && tokens@[k].text@ == ws[k] && tokens@[k].indent
                                == 0 by {
                                assert(same_but_spacing(tokens@[k], before[k]));
                            }
                        }
                    }
                }
                proof {
                    at_word = true;
                }
            } else if c == '/' && i + 1 < n && chars[i + 1] == '/' {
                let start = i;
                i = i + 2;
                while i < n && chars[i] != '\n'
                    invariant
                        start + 2 <= i <= n,
                        n == chars@.len(),
                    decreases n - i,
                {
                    i = i + 1;
                }
                if first {
                    let text = source.substring_char(start, i).to_owned();
                    let t = Token {
                        kind: TokenKind::Comment,
                        text,
                        line,
                        indent,
                        first_on_line: true,
                        space_before: true,
                        space_after: true,
                        span: SourceSpan { start, end: i },
                    };
                    proof {
                        assert(t.text@ == chars@.subrange(start as int, i as int));
                        assert(t.text@[0] == chars@[start as int]);
                        assert(t.text@[1] == chars@[start + 1]);
                        lemma_push_token(tokens@, t);
                    }
                    tokens.push(t);
                    first = false;
                }
            } else {
                let start = i;
                let kind: TokenKind;
                if lower(c) || upper(c) {
                    i = i + 1;
                    while i < n && ident_char(chars[i])
                        invariant
                            start < i <= n,
                            n == chars@.len(),
                            forall|j: int| start <= j < i ==> is_ident_char(#[trigger] chars@[j]),
                        decreases n - i,
                    {
                        i = i + 1;
                    }
                    kind = match keyword(&chars, start, i) {
                        Some(k) => TokenKind::Keyword(k),
                        None => if spells(&chars, start, i, "_") {
                            TokenKind::Underscore
                        } else if upper(c) {
                            TokenKind::TypeName
                        } else {
                            TokenKind::Ident
                        },
                    };
                    proof {
                        let sub = chars@.subrange(start as int, i as int);
                        assert(sub[0] == c);
                        assert forall|j: int| 0 <= j < sub.len() implies is_ident_char(#[trigger] sub[j]) by {
                            assert(sub[j] == chars@[start + j]);
                        }
                        if simple && at_word {
                            let w = ws[wi];
                            assert(is_lower(w[0]) && all_ident_chars(w));
                            if i < start + w.len() {
                                assert(chars@[i as int] == source@.subrange(
                                    start as int,
                                    start + w.len(),
                                )[i - start]);
                                assert(is_ident_char(w[i - start]));
                            }
                            if i > start + w.len() {
                                assert(is_ident_char(chars@[start + w.len()]));
                            }
                            assert(i == start + w.len());
                            assert(kind == word_kind(w));
                        }
                    }
                } else if digit(c) {
                    i = i + 1;
                    while i < n && digit(chars[i])
                        invariant
                            start < i <= n,
                            n == chars@.len(),
                            chars@ == source@,
                            digits == (source@.len() > 0 && all_digits(source@)),
                            forall|j: int| start <= j < i ==> is_digit(#[trigger] chars@[j]),
                        decreases n - i,
                    {
                        i = i + 1;
                    }
                    kind = TokenKind::Number;
                    proof {
                        let sub = chars@.subrange(start as int, i as int);
                        assert forall|j: int| 0 <= j < sub.len() implies is_digit(#[trigger] sub[j]) by {
                            assert(sub[j] == chars@[start + j]);
                        }
                        if simple && at_word {
                            let w = ws[wi];
                            assert(all_digits(w));
                            if i < start + w.len() {
                                assert(chars@[i as int] == source@.subrange(
                                    start as int,
                                    start + w.len(),
                                )[i - start]);
                                assert(is_digit(w[i - start]));
                            }
                            if i > start + w.len() {
                                assert(is_digit(chars@[start + w.len()]));
                            }
                            assert(i == start + w.len());
                            assert(kind == word_kind(w));
                        }
                    }
                } else if c == '"' {
                    i = i + 1;
                    let mut closed = false;
                    while i < n && !closed
                        invariant
                            forall|words: Seq<Seq<char>>| !#[trigger] plain_line(source@, words),
                            start < i <= n,
                            n == chars@.len(),
                            closed ==> i >= start + 2 && chars@[i - 1] == '"',
                            chars@ == source@,
                            start < n,
                            chars@[start as int] == '"',
                        decreases n - i,
                    {
                        if chars[i] == '\\' && i + 1 < n {
                            i = i + 2;
                        } else {
                            if chars[i] == '"' {
                                closed = true;
                            } else if chars[i] == '\n' {
                                return Err(LexError::UnterminatedString);
                            }
                            i = i + 1;
                        }
                    }
                    if !closed {
                        return Err(LexError::UnterminatedString);
                    }
                    kind = TokenKind::Str;
                    proof {
                        let sub = chars@.subrange(start as int, i as int);
                        assert(sub[0] == chars@[start as int]);
                        assert(sub[sub.len() - 1] == chars@[i - 1]);
                    }
                } else if c == '.' {
                    if i + 1 < n && chars[i + 1] == '.' {
                        if n - i > 2 && chars[i + 2] == '=' {
                            i = i + 3;
                            kind = TokenKind::DotDotEq;
                            assert(chars@.subrange(start as int, i as int) =~= seq!['.', '.', '=']);
                        } else {
                            i = i + 2;
                            kind = TokenKind::DotDot;
                            assert(chars@.subrange(start as int, i as int) =~= seq!['.', '.']);
                        }
                    } else {
                        i = i + 1;
                        kind = TokenKind::Dot;
                        assert(chars@.subrange(start as int, i as int) =~= seq!['.']);
                    }
                } else if c == '!' {
                    if n - i > 2 && chars[i + 1] == '-' && chars[i + 2] == '>' {
                        i = i + 3;
                        kind = TokenKind::BangArrow;
                        assert(chars@.subrange(start as int, i as int) =~= seq!['!', '-', '>']);
                    } else if i + 1 < n && chars[i + 1] == '=' {
                        i = i + 2;
                        kind = TokenKind::Operator;
                    } else {
                        i = i + 1;
                        kind = TokenKind::Bang;
                        assert(chars@.subrange(start as int, i as int) =~= seq!['!']);
                    }
                } else if c == ':' {
                    if i + 1 < n && chars[i + 1] == ':' {
                        i = i + 2;
                        kind = TokenKind::PathSep;
                        assert(chars@.subrange(start as int, i as int) =~= seq![':', ':']);
                    } else {
                        i = i + 1;
                        kind = TokenKind::Colon;
                        assert(chars@.subrange(start as int, i as int) =~= seq![':']);
                    }
                } else if operator_char(c) {
                    i = i + 1;
                    while i < n && operator_char(chars[i])
                        invariant
                            start < i <= n,
                            n == chars@.len(),
                            forall|j: int| start <= j < i ==> is_operator_char(#[trigger] chars@[j]),
                        decreases n - i,
                    {
                        i = i + 1;
                    }
                    kind = operator_kind(&chars, start, i);
                    proof {
                        if simple && at_word {
                            let w = ws[wi];
                            assert(w == seq!['='] || w == seq!['-', '>']);
                            if i < start + w.len() {
                                assert(chars@[i as int] == source@.subrange(
                                    start as int,
                                    start + w.len(),
                                )[i - start]);
                                assert(is_operator_char(w[i - start]));
                            }
                            if i > start + w.len() {
                                assert(is_operator_char(chars@[start + w.len()]));
                            }
                            assert(i == start + w.len());
                            assert(kind == word_kind(w));
                        }
                    }
                } else {
                    i = i + 1;
                    assert(chars@.subrange(start as int, i as int) =~= seq![c]);
                    kind = if c == '?' {
                        TokenKind::Question
                    } else if c == '(' {
                        TokenKind::OpenParen
                    } else if c == ')' {
                        TokenKind::CloseParen
                    } else if c == '[' {
                        TokenKind::OpenBracket
                    } else if c == ']' {
                        TokenKind::CloseBracket
                    } else if c == ',' {
                        TokenKind::Comma
                    } else if c == ';' {
                        TokenKind::Semicolon
                    } else {
                        return Err(LexError::UnexpectedCharacter);
                    };
                }
                let text = source.substring_char(start, i).to_owned();
                let t = Token {
                    kind,
                    text,
                    line,
                    indent,
                    first_on_line: first,
                    space_before,
                    space_after: false,
                    span: SourceSpan { start, end: i },
                };
                proof {
                    assert(t.text@ == chars@.subrange(start as int, i as int));
                    assert(token_text_fits(t));
                    lemma_push_token(tokens@, t);
                }
                tokens.push(t);
                first = false;
                space_before = false;
                proof {
                    if simple {
                        assert(at_word);
                        assert(i == start + ws[wi].len() && kind == word_kind(ws[wi]));
                        assert(tokens@[wi].text@ == ws[wi]);
                        wi = wi + 1;
                        at_word = false;
                    }
                }
            }
        }
        if !first {
            let ghost before = tokens@;
            mark_space_after(&mut tokens);
            proof {
                lemma_spacing_keeps_lines(tokens@, before);
                assert(same_but_spacing(tokens@[tokens@.len() - 1], before[before.len() - 1]));
            }
            let t = Token {
                kind: TokenKind::Eol,
                text: String::new(),
                line,
                indent,
                first_on_line: false,
                space_before,
                space_after: true,
                span: SourceSpan { start: i, end: i },
            };
            proof {
                lemma_push_eol(tokens@, t);
            }
            tokens.push(t);
        }
        if line < usize::MAX {
            line = line + 1;
        }
    }
    proof {
        assert forall|words: Seq<Seq<char>>| #[trigger]
            plain_line(source@, words) implies lexes_words(tokens@, words) by {
            lemma_plain_line_unique(source@, words, ws);
        }
    }
    Ok(tokens)
}

} // verus!
