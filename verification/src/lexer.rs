//! The tokenizer: source text to a sequence of tokens.
//!
//! At each position the fixed spellings of the table are tried in table order,
//! without regard to the case of ASCII letters. Where none matches, a string
//! literal, a numeric literal or an identifier is scanned, in that priority.
use crate::token::{
    lemma_spellings, lemma_table_order, spelling, table_entry, table_token, upper, TokenType,
    TokenView, TABLE_LEN,
};
use vstd::prelude::*;
use vstd::string::StrSliceExecFns;

verus! {

/// Why a source text is not a sequence of tokens. `at` counts characters from the
/// start of the text and names the place where the failing token begins.
#[derive(Debug, Clone, Copy, PartialEq, Eq, Structural)]
pub enum LexError {
    /// A string literal is opened and the text ends before its closing quote.
    UnterminatedString { at: usize },
    /// A numeric literal runs to the end of the text with nothing after it.
    MalformedNumber { at: usize },
    /// No token starts with this character, or an identifier runs to the end of
    /// the text with nothing after it.
    UndefinedSymbol { at: usize },
}

impl LexError {
    /// The position at which the failing token begins, counted in characters.
    pub open spec fn spec_position(self) -> usize {
        match self {
            LexError::UnterminatedString { at } => at,
            LexError::MalformedNumber { at } => at,
            LexError::UndefinedSymbol { at } => at,
        }
    }

    /// The position at which the failing token begins, counted in characters.
    #[verifier::when_used_as_spec(spec_position)]
    pub fn position(self) -> (r: usize)
        ensures
            r == self.spec_position(),
    {
        match self {
            LexError::UnterminatedString { at } => at,
            LexError::MalformedNumber { at } => at,
            LexError::UndefinedSymbol { at } => at,
        }
    }

    /// The words that describe this error.
    pub open spec fn text(self) -> Seq<char> {
        match self {
            LexError::UnterminatedString { .. } => "Unterminated string"@,
            LexError::MalformedNumber { .. } => "Malformed number"@,
            LexError::UndefinedSymbol { .. } => "Undefined symbol"@,
        }
    }

    /// The words that describe this error.
    pub fn message(self) -> (r: &'static str)
        ensures
            r@ == self.text(),
    {
        match self {
            LexError::UnterminatedString { .. } => "Unterminated string",
            LexError::MalformedNumber { .. } => "Malformed number",
            LexError::UndefinedSymbol { .. } => "Undefined symbol",
        }
    }
}

/// The three scanners for tokens that have no fixed spelling.
#[derive(Debug, Clone, Copy, PartialEq, Eq, Structural)]
pub enum Scan {
    /// The inside of a string literal: up to the next double quote.
    Text,
    /// A numeric literal: digits and periods.
    Number,
    /// An identifier: letters, digits and underscores.
    Word,
}

/// Whether `c` is an ASCII letter.
pub open spec fn is_letter(c: char) -> bool {
    ('A' <= c && c <= 'Z') || ('a' <= c && c <= 'z')
}

/// Whether `c` is an ASCII digit.
pub open spec fn is_digit(c: char) -> bool {
    '0' <= c && c <= '9'
}

/// Whether `word` stands in `src` at position `at`, ASCII case ignored.
pub open spec fn matches_at(src: Seq<char>, at: int, word: Seq<char>) -> bool {
    &&& at + word.len() <= src.len()
    &&& forall|k: int| 0 <= k < word.len() ==> upper(src[at + k]) == upper(#[trigger] word[k])
}

/// The first table entry, from entry `from` on, whose spelling stands in `src` at
/// `at`; `TABLE_LEN` where there is none.
pub open spec fn first_entry(src: Seq<char>, at: int, from: int) -> int
    decreases TABLE_LEN - from,
{
    if from >= TABLE_LEN {
        TABLE_LEN as int
    } else if matches_at(src, at, spelling(from)) {
        from
    } else {
        first_entry(src, at, from + 1)
    }
}

/// What `char::is_numeric` answers for `c`.
pub uninterp spec fn char_is_numeric(c: char) -> bool;

/// What `char::is_alphanumeric` answers for `c`.
pub uninterp spec fn char_is_alphanumeric(c: char) -> bool;

/// Whether the scanner `kind` stops in front of `c`.
pub open spec fn stops(kind: Scan, c: char) -> bool {
    match kind {
        Scan::Text => c == '"',
        Scan::Number => !char_is_numeric(c) && c != '.',
        Scan::Word => !char_is_alphanumeric(c) && c != '_',
    }
}

/// The first position from `at` on at which the scanner `kind` stops; the length of
/// `src` where it never does.
pub open spec fn scan_end(src: Seq<char>, at: int, kind: Scan) -> int
    decreases src.len() - at,
{
    if at >= src.len() {
        src.len() as int
    } else if stops(kind, src[at]) {
        at
    } else {
        scan_end(src, at + 1, kind)
    }
}

/// The token that starts at position `at` of `src`, with the position behind it.
/// Blanks and line ends give no token. Requires `0 <= at < src.len()`.
pub open spec fn token_at(src: Seq<char>, at: int) -> Result<(Option<TokenView>, int), LexError> {
    let entry = first_entry(src, at, 0);
    if entry < TABLE_LEN {
        let next = at + spelling(entry).len();
        if table_token(entry) is Whitespace || table_token(entry) is Newline {
            Ok((None, next))
        } else {
            Ok((Some(table_token(entry)), next))
        }
    } else if src[at] == '"' {
        let end = scan_end(src, at + 1, Scan::Text);
        if end < src.len() {
            Ok((Some(TokenView::StringValue(src.subrange(at + 1, end))), end + 1))
        } else {
            Err(LexError::UnterminatedString { at: at as usize })
        }
    } else if is_digit(src[at]) {
        let end = scan_end(src, at + 1, Scan::Number);
        if end < src.len() {
            Ok((Some(TokenView::NumValue(src.subrange(at, end))), end))
        } else {
            Err(LexError::MalformedNumber { at: at as usize })
        }
    } else if is_letter(src[at]) {
        let end = scan_end(src, at + 1, Scan::Word);
        if end < src.len() {
            Ok((Some(TokenView::Id(src.subrange(at, end))), end))
        } else {
            Err(LexError::UndefinedSymbol { at: at as usize })
        }
    } else {
        Err(LexError::UndefinedSymbol { at: at as usize })
    }
}

/// The tokens of `src` from position `at` on, appended to `done`; the first error
/// where a position starts no token.
pub open spec fn lex_from(src: Seq<char>, at: int, done: Seq<TokenView>) -> Result<
    Seq<TokenView>,
    LexError,
>
    decreases src.len() - at,
{
    if at < 0 || at >= src.len() {
        Ok(done)
    } else {
        match token_at(src, at) {
            Err(e) => Err(e),
            Ok((token, next)) => if next <= at || next > src.len() {
                Ok(done)
            } else {
                match token {
                    Some(t) => lex_from(src, next, done.push(t)),
                    None => lex_from(src, next, done),
                }
            },
        }
    }
}

/// The tokens of the source text `src`, or the first lexical error.
pub open spec fn lex(src: Seq<char>) -> Result<Seq<TokenView>, LexError> {
    lex_from(src, 0, Seq::empty())
}

/// The values of a sequence of tokens.
pub open spec fn token_views(tokens: Seq<TokenType>) -> Seq<TokenView> {
    tokens.map_values(|t: TokenType| t@)
}

/// Every spelling of the table has between one and eight characters.
pub proof fn lemma_spelling_len(i: int)
    requires
        0 <= i < TABLE_LEN,
    ensures
        1 <= spelling(i).len() <= 8,
{
    lemma_spellings();
}

/// `first_entry` answers with the first matching entry from `from` on.
pub proof fn lemma_first_entry(src: Seq<char>, at: int, from: int)
    requires
        0 <= from <= TABLE_LEN,
    ensures
        from <= first_entry(src, at, from) <= TABLE_LEN,
        first_entry(src, at, from) < TABLE_LEN ==> matches_at(
            src,
            at,
            spelling(first_entry(src, at, from)),
        ),
        forall|j: int| from <= j < first_entry(src, at, from) ==> !matches_at(src, at, spelling(j)),
    decreases TABLE_LEN - from,
{
    if from < TABLE_LEN && !matches_at(src, at, spelling(from)) {
        lemma_first_entry(src, at, from + 1);
    }
}

/// `scan_end` answers with the first position from `at` on where the scanner stops.
pub proof fn lemma_scan_end(src: Seq<char>, at: int, kind: Scan)
    requires
        0 <= at <= src.len(),
    ensures
        at <= scan_end(src, at, kind) <= src.len(),
        scan_end(src, at, kind) < src.len() ==> stops(kind, src[scan_end(src, at, kind)]),
        forall|j: int| at <= j < scan_end(src, at, kind) ==> !stops(kind, src[j]),
    decreases src.len() - at,
{
    if at < src.len() && !stops(kind, src[at]) {
        lemma_scan_end(src, at + 1, kind);
    }
}

/// The position behind a token lies behind the position it starts at.
pub proof fn lemma_token_at_advances(src: Seq<char>, at: int)
    requires
        0 <= at < src.len(),
    ensures
        token_at(src, at) matches Ok((_, next)) ==> at < next <= src.len(),
{
    let entry = first_entry(src, at, 0);
    lemma_first_entry(src, at, 0);
    if entry < TABLE_LEN {
        lemma_spelling_len(entry);
    } else {
        lemma_scan_end(src, at + 1, Scan::Text);
        lemma_scan_end(src, at + 1, Scan::Number);
        lemma_scan_end(src, at + 1, Scan::Word);
    }
}

/// The tokenizer takes the longest spelling: whenever the spelling of some table
/// entry `j` stands at position `at`, the entry that the tokenizer selects there
/// has a spelling at least as long.
pub proof fn lemma_longest_match(src: Seq<char>, at: int, j: int)
    requires
        0 <= j < TABLE_LEN,
        matches_at(src, at, spelling(j)),
    ensures
        first_entry(src, at, 0) <= j,
        spelling(j).len() <= spelling(first_entry(src, at, 0)).len(),
{
    let e = first_entry(src, at, 0);
    lemma_first_entry(src, at, 0);
    if e < j && spelling(e).len() < spelling(j).len() {
        lemma_table_order(e, j);
        let k = choose|k: int|
            0 <= k < spelling(e).len() && upper(spelling(e)[k]) != upper(#[trigger] spelling(j)[k]);
        assert(upper(src[at + k]) == upper(spelling(e)[k]));
        assert(upper(src[at + k]) == upper(spelling(j)[k]));
    }
}

/// Keywords are recognized whatever the case of their letters: two texts that are
/// equal up to the case of ASCII letters select the same table entry at every
/// position, and so the same keyword, operator or punctuation token.
pub proof fn lemma_case_insensitive(a: Seq<char>, b: Seq<char>, at: int)
    requires
        a.len() == b.len(),
        forall|k: int| 0 <= k < a.len() ==> upper(#[trigger] a[k]) == upper(b[k]),
        0 <= at,
    ensures
        first_entry(a, at, 0) == first_entry(b, at, 0),
        first_entry(a, at, 0) < TABLE_LEN ==> token_at(a, at) == token_at(b, at),
{
    lemma_same_entries(a, b, at, 0);
}

proof fn lemma_same_entries(a: Seq<char>, b: Seq<char>, at: int, from: int)
    requires
        a.len() == b.len(),
        forall|k: int| 0 <= k < a.len() ==> upper(#[trigger] a[k]) == upper(b[k]),
        0 <= at,
        0 <= from,
    ensures
        first_entry(a, at, from) == first_entry(b, at, from),
    decreases TABLE_LEN - from,
{
    if from < TABLE_LEN {
        let word = spelling(from);
        if at + word.len() <= a.len() {
            assert forall|k: int| 0 <= k < word.len() implies (upper(a[at + k]) == upper(
                #[trigger] word[k],
            )) == (upper(b[at + k]) == upper(word[k])) by {
                assert(upper(a[at + k]) == upper(b[at + k]));
            }
        }
        assert(matches_at(a, at, word) == matches_at(b, at, word));
        lemma_same_entries(a, b, at, from + 1);
    }
}

/// Blanks and line ends are recognized and dropped: no token of a text is one.
pub proof fn lemma_no_blanks(src: Seq<char>, at: int, done: Seq<TokenView>)
    requires
        0 <= at,
        forall|i: int| 0 <= i < done.len() ==> !(done[i] is Whitespace) && !(done[i] is Newline),
    ensures
        lex_from(src, at, done) matches Ok(tokens) ==> forall|i: int|
            0 <= i < tokens.len() ==> !(tokens[i] is Whitespace) && !(tokens[i] is Newline),
    decreases src.len() - at,
{
    if at < src.len() {
        match token_at(src, at) {
            Err(_) => {},
            Ok((token, next)) => {
                if at < next <= src.len() {
                    match token {
                        Some(t) => lemma_no_blanks(src, next, done.push(t)),
                        None => lemma_no_blanks(src, next, done),
                    }
                }
            },
        }
    }
}

/// `char::is_numeric`: whether the character is in one of Unicode's number
/// categories. The contract only names the answer.
#[verifier::external_body]
fn is_numeric(c: char) -> (r: bool)
    ensures
        r == char_is_numeric(c),
{
    c.is_numeric()
}

/// `char::is_alphanumeric`: whether the character is alphabetic or numeric in
/// Unicode's sense. The contract only names the answer.
#[verifier::external_body]
fn is_alphanumeric(c: char) -> (r: bool)
    ensures
        r == char_is_alphanumeric(c),
{
    c.is_alphanumeric()
}

/// `String::push`: appends one character to the end of the string.
#[verifier::external_body]
fn push_char(s: &mut String, c: char)
    ensures
        final(s)@ == old(s)@.push(c),
{
    s.push(c)
}

/// `c` with an ASCII lower-case letter replaced by its upper-case form.
pub fn to_upper(c: char) -> (r: char)
    ensures
        r == upper(c),
{
    if 'a' <= c && c <= 'z' {
        ((c as u8) - 32) as char
    } else {
        c
    }
}

/// The characters of `s`, in order.
pub fn chars_of(s: &str) -> (v: Vec<char>)
    ensures
        v@ == s@,
{
    broadcast use vstd::string::axiom_spec_iter;

    let mut v: Vec<char> = Vec::new();
    for c in it: s.chars()
        invariant
            it.seq() == s@,
            v@ == s@.subrange(0, it.index()),
    {
        v.push(c);
    }
    v
}

/// The characters of `src` from `from` up to `to`, as a string.
pub fn text_of(src: &Vec<char>, from: usize, to: usize) -> (s: String)
    requires
        from <= to <= src.len(),
    ensures
        s@ == src@.subrange(from as int, to as int),
{
    let mut s = String::new();
    let mut i: usize = from;
    while i < to
        invariant
            from <= i <= to <= src.len(),
            s@ == src@.subrange(from as int, i as int),
        decreases to - i,
    {
        push_char(&mut s, src[i]);
        i += 1;
    }
    s
}

/// Whether `word` stands in `src` at position `at`, ASCII case ignored.
pub fn word_at(src: &Vec<char>, at: usize, word: &str) -> (r: bool)
    requires
        at <= src.len(),
    ensures
        r == matches_at(src@, at as int, word@),
{
    let n = word.unicode_len();
    if n > src.len() - at {
        return false;
    }
    let mut k: usize = 0;
    while k < n
        invariant
            k <= n,
            n == word@.len(),
            at + n <= src.len(),
            forall|j: int| 0 <= j < k ==> upper(src[at + j]) == upper(#[trigger] word@[j]),
        decreases n - k,
    {
        if to_upper(src[at + k]) != to_upper(word.get_char(k)) {
            return false;
        }
        k += 1;
    }
    true
}

/// The first table entry whose spelling stands in `src` at `at`; `TABLE_LEN` where
/// there is none.
pub fn find_entry(src: &Vec<char>, at: usize) -> (r: usize)
    requires
        at <= src.len(),
    ensures
        r == first_entry(src@, at as int, 0),
{
    let mut i: usize = 0;
    while i < TABLE_LEN
        invariant
            i <= TABLE_LEN,
            at <= src.len(),
            first_entry(src@, at as int, 0) == first_entry(src@, at as int, i as int),
        decreases TABLE_LEN - i,
    {
        let entry = table_entry(i);
        if word_at(src, at, entry.0) {
            return i;
        }
        i += 1;
    }
    i
}

/// Whether the scanner `kind` stops in front of `c`.
pub fn scan_stops(kind: Scan, c: char) -> (r: bool)
    ensures
        r == stops(kind, c),
{
    match kind {
        Scan::Text => c == '"',
        Scan::Number => !is_numeric(c) && c != '.',
        Scan::Word => !is_alphanumeric(c) && c != '_',
    }
}

/// The first position from `at` on at which the scanner `kind` stops; the length of
/// `src` where it never does.
pub fn find_end(src: &Vec<char>, at: usize, kind: Scan) -> (r: usize)
    requires
        at <= src.len(),
    ensures
        r == scan_end(src@, at as int, kind),
{
    let mut i: usize = at;
    while i < src.len()
        invariant
            at <= i <= src.len(),
            scan_end(src@, at as int, kind) == scan_end(src@, i as int, kind),
        decreases src.len() - i,
    {
        if scan_stops(kind, src[i]) {
            return i;
        }
        i += 1;
    }
    i
}

/// Scans the token that starts at position `at`: the token, where the position
/// holds one, and the position behind it.
pub fn next_token(src: &Vec<char>, at: usize) -> (r: Result<(Option<TokenType>, usize), LexError>)
    requires
        at < src.len(),
    ensures
        match r {
            Ok((token, next)) => token_at(src@, at as int) == Ok::<_, LexError>(
                (
                    match token {
                        Some(t) => Some(t@),
                        None => None,
                    },
                    next as int,
                ),
            ) && at < next <= src.len(),
            Err(e) => token_at(src@, at as int) == Err::<(Option<TokenView>, int), _>(e),
        },
{
    proof {
        lemma_token_at_advances(src@, at as int);
        lemma_scan_end(src@, at + 1, Scan::Text);
        lemma_scan_end(src@, at + 1, Scan::Number);
        lemma_scan_end(src@, at + 1, Scan::Word);
    }
    let entry = find_entry(src, at);
    if entry < TABLE_LEN {
        let (word, token) = table_entry(entry);
        let next = at + word.unicode_len();
        match token {
            TokenType::Whitespace => Ok((None, next)),
            TokenType::Newline => Ok((None, next)),
            _ => Ok((Some(token), next)),
        }
    } else {
        let c = src[at];
        if c == '"' {
            let end = find_end(src, at + 1, Scan::Text);
            if end < src.len() {
                Ok((Some(TokenType::StringValue(text_of(src, at + 1, end))), end + 1))
            } else {
                Err(LexError::UnterminatedString { at })
            }
        } else if '0' <= c && c <= '9' {
            let end = find_end(src, at + 1, Scan::Number);
            if end < src.len() {
                Ok((Some(TokenType::NumValue(text_of(src, at, end))), end))
            } else {
                Err(LexError::MalformedNumber { at })
            }
        } else if ('A' <= c && c <= 'Z') || ('a' <= c && c <= 'z') {
            let end = find_end(src, at + 1, Scan::Word);
            if end < src.len() {
                Ok((Some(TokenType::Id(text_of(src, at, end))), end))
            } else {
                Err(LexError::UndefinedSymbol { at })
            }
        } else {
            Err(LexError::UndefinedSymbol { at })
        }
    }
}

/// Turns source text into its tokens, in order. Blanks and line ends separate
/// tokens and are dropped. The first position that starts no token ends the scan
/// with its error.
pub fn parse(contents: &str) -> (r: Result<Vec<TokenType>, LexError>)
    ensures
        match r {
            Ok(tokens) => lex(contents@) == Ok::<_, LexError>(token_views(tokens@)),
            Err(e) => lex(contents@) == Err::<Seq<TokenView>, _>(e),
        },
{
    let src = chars_of(contents);
    let mut tokens: Vec<TokenType> = Vec::new();
    let mut at: usize = 0;
    proof {
        assert(token_views(tokens@) =~= Seq::empty());
    }
    while at < src.len()
        invariant
            at <= src.len(),
            src@ == contents@,
            lex(contents@) == lex_from(src@, at as int, token_views(tokens@)),
        decreases src.len() - at,
    {
        match next_token(&src, at) {
            Err(e) => {
                return Err(e);
            },
            Ok((token, next)) => {
                if let Some(t) = token {
                    proof {
                        assert(token_views(tokens@.push(t)) =~= token_views(tokens@).push(t@));
                    }
                    tokens.push(t);
                }
                at = next;
            },
        }
    }
    Ok(tokens)
}

} // verus!
