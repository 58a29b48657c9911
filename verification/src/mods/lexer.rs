//! Splits the text of a scene file or of a mesh file into tokens.

use vstd::prelude::*;
use crate::mods::decimal::is_digit;
use crate::mods::text::chars_of;

verus! {

/// A token, as a mathematical value.
pub enum Lexeme {
    /// A name: a keyword, a material's name or a file's name.
    Identifier(Seq<char>),
    /// A number, as it is written.
    Number(Seq<char>),
    /// `:`
    Colon,
    /// `{`
    LBrace,
    /// `}`
    RBrace,
    /// The end of a line.
    Newline,
}

/// A token of the text.
#[derive(Debug, PartialEq, Eq)]
pub enum Token {
    /// A name: a keyword, a material's name or a file's name.
    Identifier(Vec<char>),
    /// A number, as it is written.
    Number(Vec<char>),
    /// `:`
    Colon,
    /// `{`
    LBrace,
    /// `}`
    RBrace,
    /// The end of a line.
    Newline,
}

impl View for Token {
    type V = Lexeme;

    open spec fn view(&self) -> Lexeme {
        match *self {
            Token::Identifier(name) => Lexeme::Identifier(name@),
            Token::Number(text) => Lexeme::Number(text@),
            Token::Colon => Lexeme::Colon,
            Token::LBrace => Lexeme::LBrace,
            Token::RBrace => Lexeme::RBrace,
            Token::Newline => Lexeme::Newline,
        }
    }
}

/// The tokens of `tokens`, as mathematical values.
pub open spec fn lexemes_of(tokens: Seq<Token>) -> Seq<Lexeme> {
    Seq::new(tokens.len(), |i: int| tokens[i]@)
}

/// What a character does where a token may start.
#[derive(Debug, Clone, Copy, PartialEq, Eq, Structural)]
pub enum Lead {
    /// White space within a line: skipped.
    Blank,
    /// The end of a line.
    Newline,
    /// `:`
    Colon,
    /// `{`
    LBrace,
    /// `}`
    RBrace,
    /// A digit or a minus sign: a number starts.
    Number,
    /// A letter: a name starts.
    Name,
    /// `#`: the rest of the line is a comment.
    Comment,
    /// Any other character: no token starts with it.
    Unknown,
}

/// What the tokenizer needs to know of a character.
#[derive(Debug, Clone, Copy, PartialEq, Eq, Structural)]
pub struct CharClass {
    /// What the character does where a token may start.
    pub lead: Lead,
    /// The character goes on a number that has started: a digit, a point or
    /// a minus sign.
    pub in_number: bool,
    /// The character goes on a name that has started: a letter, a digit, `_`,
    /// `.` or `/`.
    pub in_name: bool,
}

/// Whether the standard library counts `c` as white space.
pub uninterp spec fn unicode_whitespace(c: char) -> bool;

/// Whether the standard library counts `c` as a letter.
pub uninterp spec fn unicode_alphabetic(c: char) -> bool;

/// Whether the standard library counts `c` as a letter or a numeral.
pub uninterp spec fn unicode_alphanumeric(c: char) -> bool;

/// `char::is_whitespace`: the answer depends on the character alone, and is
/// what `unicode_whitespace` names.
#[verifier::external_body]
fn char_is_whitespace(c: char) -> (r: bool)
    ensures
        r == unicode_whitespace(c),
{
    c.is_whitespace()
}

/// `char::is_alphabetic`: the answer depends on the character alone, and is
/// what `unicode_alphabetic` names.
#[verifier::external_body]
fn char_is_alphabetic(c: char) -> (r: bool)
    ensures
        r == unicode_alphabetic(c),
{
    c.is_alphabetic()
}

/// `char::is_alphanumeric`: the answer depends on the character alone, and
/// is what `unicode_alphanumeric` names.
#[verifier::external_body]
fn char_is_alphanumeric(c: char) -> (r: bool)
    ensures
        r == unicode_alphanumeric(c),
{
    c.is_alphanumeric()
}

/// What `c` does where a token may start. The first of these that applies:
/// white space other than a line's end is blank; then come the line's end
/// and the three punctuation marks; a digit or a minus sign starts a number;
/// a letter starts a name; `#` starts a comment.
pub open spec fn lead_of(c: char) -> Lead {
    if unicode_whitespace(c) && c != '\n' {
        Lead::Blank
    } else if c == '\n' {
        Lead::Newline
    } else if c == ':' {
        Lead::Colon
    } else if c == '{' {
        Lead::LBrace
    } else if c == '}' {
        Lead::RBrace
    } else if is_digit(c) || c == '-' {
        Lead::Number
    } else if unicode_alphabetic(c) {
        Lead::Name
    } else if c == '#' {
        Lead::Comment
    } else {
        Lead::Unknown
    }
}

/// The class of the character `c`.
pub open spec fn char_class_of(c: char) -> CharClass {
    CharClass {
        lead: lead_of(c),
        in_number: is_digit(c) || c == '.' || c == '-',
        in_name: unicode_alphanumeric(c) || c == '_' || c == '.' || c == '/',
    }
}

/// The classes of the characters of `chars`.
pub open spec fn classes_of(chars: Seq<char>) -> Seq<CharClass> {
    Seq::new(chars.len(), |i: int| char_class_of(chars[i]))
}

/// The class of the character `c`.
pub fn classify(c: char) -> (r: CharClass)
    ensures
        r == char_class_of(c),
{
    let digit = c >= '0' && c <= '9';
    let lead = if char_is_whitespace(c) && c != '\n' {
        Lead::Blank
    } else if c == '\n' {
        Lead::Newline
    } else if c == ':' {
        Lead::Colon
    } else if c == '{' {
        Lead::LBrace
    } else if c == '}' {
        Lead::RBrace
    } else if digit || c == '-' {
        Lead::Number
    } else if char_is_alphabetic(c) {
        Lead::Name
    } else if c == '#' {
        Lead::Comment
    } else {
        Lead::Unknown
    };
    CharClass {
        lead,
        in_number: digit || c == '.' || c == '-',
        in_name: char_is_alphanumeric(c) || c == '_' || c == '.' || c == '/',
    }
}

/// Why a text has no tokens. Places count characters, from zero.
#[derive(Debug, Clone, Copy, PartialEq, Eq, Structural)]
pub enum LexError {
    /// No token starts with the character at this place.
    UnknownCharacter { at: usize },
    /// The digits, points and minus signs that start at this place do not
    /// write a number.
    MalformedNumber { at: usize },
}

/// The three kinds of run that the tokenizer scans.
#[derive(Debug, Clone, Copy, PartialEq, Eq, Structural)]
pub enum Run {
    /// The characters of a number.
    Number,
    /// The characters of a name.
    Name,
    /// The characters of a line, without its end.
    Line,
}

/// A character of class `class` goes on a run of kind `run`.
pub open spec fn goes_on(class: CharClass, run: Run) -> bool {
    match run {
        Run::Number => class.in_number,
        Run::Name => class.in_name,
        Run::Line => class.lead != Lead::Newline,
    }
}

/// The end of the run that goes through `pos`: the first place from `pos` on
/// whose character does not go on the run, or the end of the text.
pub open spec fn run_end(classes: Seq<CharClass>, run: Run, pos: int) -> int
    decreases classes.len() - pos,
{
    if 0 <= pos < classes.len() && goes_on(classes[pos], run) {
        run_end(classes, run, pos + 1)
    } else {
        pos
    }
}

/// A run ends at or after the place where it is looked for, and inside the
/// text; all characters before its end go on it, and the one at its end does
/// not.
pub proof fn lemma_run_end(classes: Seq<CharClass>, run: Run, pos: int)
    requires
        0 <= pos <= classes.len(),
    ensures
        pos <= run_end(classes, run, pos) <= classes.len(),
        forall|i: int| pos <= i < run_end(classes, run, pos) ==> goes_on(#[trigger] classes[i], run),
        run_end(classes, run, pos) < classes.len() ==> !goes_on(
            classes[run_end(classes, run, pos)],
            run,
        ),
    decreases classes.len() - pos,
{
    if pos < classes.len() && goes_on(classes[pos], run) {
        lemma_run_end(classes, run, pos + 1);
    }
}

/// The number of points in `text`.
pub open spec fn count_points(text: Seq<char>) -> nat
    decreases text.len(),
{
    if text.len() == 0 {
        0
    } else {
        count_points(text.drop_last()) + if text.last() == '.' {
            1nat
        } else {
            0nat
        }
    }
}

/// The number of digits in `text`.
pub open spec fn count_digits(text: Seq<char>) -> nat
    decreases text.len(),
{
    if text.len() == 0 {
        0
    } else {
        count_digits(text.drop_last()) + if is_digit(text.last()) {
            1nat
        } else {
            0nat
        }
    }
}

/// `text` is made of digits and points only, with one point at most and one
/// digit at least.
pub open spec fn is_unsigned_decimal(text: Seq<char>) -> bool {
    &&& forall|i: int| 0 <= i < text.len() ==> is_digit(#[trigger] text[i]) || text[i] == '.'
    &&& count_points(text) <= 1
    &&& count_digits(text) >= 1
}

/// `text` writes a decimal number: a minus sign or none, then digits with at
/// most one point among them, before them or after them.
pub open spec fn is_decimal_number(text: Seq<char>) -> bool {
    if text.len() > 0 && text[0] == '-' {
        is_unsigned_decimal(text.skip(1))
    } else {
        is_unsigned_decimal(text)
    }
}

/// `prefix` put in front of the tokens of `rest`; an error stays as it is.
pub open spec fn prepend(prefix: Seq<Lexeme>, rest: Result<Seq<Lexeme>, LexError>) -> Result<
    Seq<Lexeme>,
    LexError,
> {
    match rest {
        Ok(tokens) => Ok(prefix + tokens),
        Err(e) => Err(e),
    }
}

/// The tokens of the text from `pos` on, or the first error in it.
///
/// Blanks are skipped. A number runs from its first character over all that
/// go on a number, and must write a decimal number. A name runs from its
/// first character over all that go on a name. A comment runs to the end of
/// its line, which still gives its token; a comment in the last line gives
/// none.
pub open spec fn lex_from(chars: Seq<char>, classes: Seq<CharClass>, pos: int) -> Result<
    Seq<Lexeme>,
    LexError,
>
    decreases classes.len() - pos,
{
    if pos < 0 || pos >= classes.len() {
        Ok(Seq::empty())
    } else {
        match classes[pos].lead {
            Lead::Blank => lex_from(chars, classes, pos + 1),
            Lead::Newline => prepend(seq![Lexeme::Newline], lex_from(chars, classes, pos + 1)),
            Lead::Colon => prepend(seq![Lexeme::Colon], lex_from(chars, classes, pos + 1)),
            Lead::LBrace => prepend(seq![Lexeme::LBrace], lex_from(chars, classes, pos + 1)),
            Lead::RBrace => prepend(seq![Lexeme::RBrace], lex_from(chars, classes, pos + 1)),
            Lead::Number => {
                proof {
                    lemma_run_end(classes, Run::Number, pos + 1);
                }
                let end = run_end(classes, Run::Number, pos + 1);
                let text = chars.subrange(pos, end);
                if is_decimal_number(text) {
                    prepend(seq![Lexeme::Number(text)], lex_from(chars, classes, end))
                } else {
                    Err(LexError::MalformedNumber { at: pos as usize })
                }
            },
            Lead::Name => {
                proof {
                    lemma_run_end(classes, Run::Name, pos + 1);
                }
                let end = run_end(classes, Run::Name, pos + 1);
                prepend(
                    seq![Lexeme::Identifier(chars.subrange(pos, end))],
                    lex_from(chars, classes, end),
                )
            },
            Lead::Comment => {
                proof {
                    lemma_run_end(classes, Run::Line, pos + 1);
                }
                let end = run_end(classes, Run::Line, pos + 1);
                if end < classes.len() {
                    prepend(seq![Lexeme::Newline], lex_from(chars, classes, end + 1))
                } else {
                    Ok(Seq::empty())
                }
            },
            Lead::Unknown => Err(LexError::UnknownCharacter { at: pos as usize }),
        }
    }
}

/// The tokens of a text, or the first error in it.
pub open spec fn tokens_of(text: Seq<char>) -> Result<Seq<Lexeme>, LexError> {
    lex_from(text, classes_of(text), 0)
}

/// Every number among `tokens` writes a decimal number.
pub open spec fn numbers_are_decimal(tokens: Seq<Lexeme>) -> bool {
    forall|i: int|
        0 <= i < tokens.len() && (#[trigger] tokens[i]) is Number ==> is_decimal_number(
            tokens[i]->Number_0,
        )
}

/// Every number among the tokens of a text writes a decimal number.
pub proof fn lemma_numbers_are_decimal(chars: Seq<char>, classes: Seq<CharClass>, pos: int)
    requires
        0 <= pos <= classes.len(),
    ensures
        lex_from(chars, classes, pos) is Ok ==> numbers_are_decimal(
            lex_from(chars, classes, pos)->Ok_0,
        ),
    decreases classes.len() - pos,
{
    if pos < classes.len() && lex_from(chars, classes, pos) is Ok {
        let next: int = match classes[pos].lead {
            Lead::Number => run_end(classes, Run::Number, pos + 1),
            Lead::Name => run_end(classes, Run::Name, pos + 1),
            Lead::Comment => run_end(classes, Run::Line, pos + 1) + 1,
            _ => pos + 1,
        };
        lemma_run_end(classes, Run::Number, pos + 1);
        lemma_run_end(classes, Run::Name, pos + 1);
        lemma_run_end(classes, Run::Line, pos + 1);
        if next <= classes.len() {
            lemma_numbers_are_decimal(chars, classes, next);
            let rest = lex_from(chars, classes, next)->Ok_0;
            let all = lex_from(chars, classes, pos)->Ok_0;
            assert forall|i: int| 0 <= i < all.len() && (#[trigger] all[i]) is Number implies is_decimal_number(
                all[i]->Number_0,
            ) by {
                if all.len() == rest.len() + 1 && i > 0 {
                    assert(all[i] == rest[i - 1]);
                }
            }
        }
    }
}

/// Putting two runs of tokens in front, one after the other, is putting
/// both in front at once.
pub proof fn lemma_prepend_twice(
    first: Seq<Lexeme>,
    second: Seq<Lexeme>,
    rest: Result<Seq<Lexeme>, LexError>,
)
    ensures
        prepend(first, prepend(second, rest)) == prepend(first + second, rest),
{
    match rest {
        Ok(tokens) => {
            assert(first + (second + tokens) =~= (first + second) + tokens);
        },
        Err(_) => {},
    }
}

/// Whether a character of class `class` goes on a run of kind `run`.
pub fn class_goes_on(class: CharClass, run: Run) -> (r: bool)
    ensures
        r == goes_on(class, run),
{
    match run {
        Run::Number => class.in_number,
        Run::Name => class.in_name,
        Run::Line => class.lead != Lead::Newline,
    }
}

/// The end of the run of kind `run` that goes through `pos`.
pub fn scan_run(classes: &Vec<CharClass>, run: Run, pos: usize) -> (end: usize)
    requires
        pos <= classes@.len(),
    ensures
        end == run_end(classes@, run, pos as int),
        pos <= end <= classes@.len(),
{
    let n = classes.len();
    let mut end: usize = pos;
    while end < n && class_goes_on(classes[end], run)
        invariant
            pos <= end <= n,
            n == classes@.len(),
            run_end(classes@, run, pos as int) == run_end(classes@, run, end as int),
        decreases n - end,
    {
        end = end + 1;
    }
    end
}

/// The characters of `chars` from `from` up to `to`.
pub fn copy_range(chars: &Vec<char>, from: usize, to: usize) -> (r: Vec<char>)
    requires
        from <= to <= chars@.len(),
    ensures
        r@ == chars@.subrange(from as int, to as int),
{
    let mut out: Vec<char> = Vec::new();
    let mut i: usize = from;
    while i < to
        invariant
            from <= i <= to <= chars@.len(),
            out@ == chars@.subrange(from as int, i as int),
        decreases to - i,
    {
        out.push(chars[i]);
        assert(out@ =~= chars@.subrange(from as int, i + 1));
        i = i + 1;
    }
    out
}

/// Whether `text` writes a decimal number.
pub fn check_decimal_number(text: &Vec<char>) -> (r: bool)
    ensures
        r == is_decimal_number(text@),
{
    let n = text.len();
    let start: usize = if n > 0 && text[0] == '-' {
        1
    } else {
        0
    };
    let ghost body = text@.skip(start as int);
    assert(text@.skip(0) =~= text@);
    let mut points: usize = 0;
    let mut digits: usize = 0;
    let mut i: usize = start;
    while i < n
        invariant
            start <= i <= n,
            n == text@.len(),
            body == text@.skip(start as int),
            is_decimal_number(text@) == is_unsigned_decimal(body),
            forall|j: int| 0 <= j < i - start ==> is_digit(#[trigger] body[j]) || body[j] == '.',
            points == count_points(body.take(i - start)),
            digits == count_digits(body.take(i - start)),
            points <= i - start,
            digits <= i - start,
        decreases n - i,
    {
        let c = text[i];
        assert(body[i - start] == c);
        proof {
            let taken = body.take(i - start + 1);
            assert(taken.drop_last() =~= body.take(i - start));
            assert(taken.last() == c);
        }
        if c == '.' {
            points = points + 1;
        } else if c >= '0' && c <= '9' {
            digits = digits + 1;
        } else {
            assert(!(is_digit(body[i - start]) || body[i - start] == '.'));
            return false;
        }
        i = i + 1;
    }
    assert(body.take(n - start) =~= body);
    points <= 1 && digits >= 1
}

/// The tokens of a text whose characters have the classes `classes`, or the
/// first error in it.
pub fn lex_classified(chars: &Vec<char>, classes: &Vec<CharClass>) -> (r: Result<
    Vec<Token>,
    LexError,
>)
    requires
        chars@.len() == classes@.len(),
    ensures
        match lex_from(chars@, classes@, 0) {
            Ok(lexemes) => r is Ok && lexemes_of(r->Ok_0@) == lexemes,
            Err(e) => r is Err && r->Err_0 == e,
        },
{
    let n = classes.len();
    let mut tokens: Vec<Token> = Vec::new();
    let mut pos: usize = 0;
    assert(lexemes_of(tokens@) =~= Seq::<Lexeme>::empty());
    assert(Seq::<Lexeme>::empty() + lex_from(chars@, classes@, 0)->Ok_0 =~= lex_from(
        chars@,
        classes@,
        0,
    ).unwrap());
    while pos < n
        invariant
            pos <= n,
            n == classes@.len(),
            n == chars@.len(),
            lex_from(chars@, classes@, 0) == prepend(
                lexemes_of(tokens@),
                lex_from(chars@, classes@, pos as int),
            ),
        decreases n - pos,
    {
        let ghost before = lexemes_of(tokens@);
        let ghost here = lex_from(chars@, classes@, pos as int);
        let mut next: usize = pos + 1;
        let mut found: Option<Token> = None;
        match classes[pos].lead {
            Lead::Blank => {},
            Lead::Newline => {
                found = Some(Token::Newline);
            },
            Lead::Colon => {
                found = Some(Token::Colon);
            },
            Lead::LBrace => {
                found = Some(Token::LBrace);
            },
            Lead::RBrace => {
                found = Some(Token::RBrace);
            },
            Lead::Number => {
                next = scan_run(classes, Run::Number, pos + 1);
                let text = copy_range(chars, pos, next);
                if !check_decimal_number(&text) {
                    return Err(LexError::MalformedNumber { at: pos });
                }
                found = Some(Token::Number(text));
            },
            Lead::Name => {
                next = scan_run(classes, Run::Name, pos + 1);
                found = Some(Token::Identifier(copy_range(chars, pos, next)));
            },
            Lead::Comment => {
                let end = scan_run(classes, Run::Line, pos + 1);
                if end < n {
                    next = end + 1;
                    found = Some(Token::Newline);
                } else {
                    next = n;
                }
            },
            Lead::Unknown => {
                return Err(LexError::UnknownCharacter { at: pos });
            },
        }
        match found {
            Some(token) => {
                proof {
                    assert(here == prepend(seq![token@], lex_from(chars@, classes@, next as int)));
                    lemma_prepend_twice(
                        before,
                        seq![token@],
                        lex_from(chars@, classes@, next as int),
                    );
                }
                tokens.push(token);
                assert(lexemes_of(tokens@) =~= before + seq![token@]);
            },
            None => {
                assert(here == lex_from(chars@, classes@, next as int));
            },
        }
        pos = next;
    }
    assert(lex_from(chars@, classes@, n as int) == Ok::<Seq<Lexeme>, LexError>(Seq::empty()));
    assert(lexemes_of(tokens@) + Seq::<Lexeme>::empty() =~= lexemes_of(tokens@));
    Ok(tokens)
}

/// The tokens of `input`, or the first error in it.
pub fn tokenize(input: &str) -> (r: Result<Vec<Token>, LexError>)
    ensures
        match tokens_of(input@) {
            Ok(lexemes) => r is Ok && lexemes_of(r->Ok_0@) == lexemes,
            Err(e) => r is Err && r->Err_0 == e,
        },
{
    let chars = chars_of(input);
    let n = chars.len();
    let mut classes: Vec<CharClass> = Vec::new();
    let mut i: usize = 0;
    while i < n
        invariant
            i <= n,
            n == chars@.len(),
            classes@.len() == i,
            forall|j: int| 0 <= j < i ==> (#[trigger] classes@[j]) == char_class_of(chars@[j]),
        decreases n - i,
    {
        classes.push(classify(chars[i]));
        i = i + 1;
    }
    assert(classes@ =~= classes_of(chars@));
    lex_classified(&chars, &classes)
}

} // verus!
